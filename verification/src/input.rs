//! What the schema asks for: one prompt per property, planned from the
//! property's `type`, `x-prompt`, `default`, `enum` and `x-casing` members,
//! and the answers recorded under the property's key (and, for strings,
//! under one derived key per requested casing).

use vstd::prelude::*;

use crate::casing::{casing_names, cased, to_case};
use crate::json::{field, get_field, json_integer, get_text, instance_errors, member, schema_build_error,
    schema_compile_error, schema_instance_errors, text_of, JsonNumber, JsonValue};
use crate::name_map::{increasing, lemma_map_of_at, map_of, names_of, NameMap};
use crate::text::{compare_text, lemma_text_less_total, lemma_text_less_transitive, same_text,
    text_less, views, Order};

verus! {

/// The texts among `items`, in order (`filter_map(Value::as_str)`).
pub open spec fn texts_in(items: Seq<JsonValue>) -> Seq<Seq<char>>
    decreases items.len(),
{
    if items.len() == 0 {
        Seq::empty()
    } else {
        let rest = texts_in(items.drop_last());
        match items.last() {
            JsonValue::Text(s) => rest.push(s@),
            _ => rest,
        }
    }
}

/// The texts among `items` that name a known casing, in order.
pub open spec fn casings_in(items: Seq<JsonValue>) -> Seq<Seq<char>>
    decreases items.len(),
{
    if items.len() == 0 {
        Seq::empty()
    } else {
        let rest = casings_in(items.drop_last());
        match items.last() {
            JsonValue::Text(s) => if casing_names().contains(s@) {
                rest.push(s@)
            } else {
                rest
            },
            _ => rest,
        }
    }
}

/// An `x-casing` list keeps, in order, exactly its texts that name one of
/// camelCase, PascalCase, snake_case, kebab-case and UPPER_CASE: appending
/// such a text appends it to the kept casings, appending anything else
/// keeps them as they were.
pub proof fn law_casing_list_keeps_known_names(items: Seq<JsonValue>, v: JsonValue)
    ensures
        casings_in(Seq::<JsonValue>::empty()) == Seq::<Seq<char>>::empty(),
        v matches JsonValue::Text(s) ==> ((s@ == "camelCase"@ || s@ == "PascalCase"@ || s@
            == "snake_case"@ || s@ == "kebab-case"@ || s@ == "UPPER_CASE"@) ==> casings_in(
            items.push(v),
        ) == casings_in(items).push(s@)),
        v matches JsonValue::Text(s) ==> (!(s@ == "camelCase"@ || s@ == "PascalCase"@ || s@
            == "snake_case"@ || s@ == "kebab-case"@ || s@ == "UPPER_CASE"@) ==> casings_in(
            items.push(v),
        ) == casings_in(items)),
        !(v is Text) ==> casings_in(items.push(v)) == casings_in(items),
{
    let t = items.push(v);
    assert(t.drop_last() =~= items);
    let names = casing_names();
    assert(names[0] == "camelCase"@);
    assert(names[1] == "PascalCase"@);
    assert(names[2] == "snake_case"@);
    assert(names[3] == "kebab-case"@);
    assert(names[4] == "UPPER_CASE"@);
    if let JsonValue::Text(s) = v {
        if names.contains(s@) {
            let i = choose|i: int| 0 <= i < names.len() && names[i] == s@;
            assert(0 <= i < 5);
        }
        if s@ == "camelCase"@ {
            assert(names.contains(s@));
        } else if s@ == "PascalCase"@ {
            assert(names[1] == s@);
        } else if s@ == "snake_case"@ {
            assert(names[2] == s@);
        } else if s@ == "kebab-case"@ {
            assert(names[3] == s@);
        } else if s@ == "UPPER_CASE"@ {
            assert(names[4] == s@);
        }
    }
}

/// The declared type of a property; `string` when none is given.
pub open spec fn type_of(p: JsonValue) -> Seq<char> {
    match text_of(field(p, "type"@)) {
        Some(t) => t,
        None => "string"@,
    }
}

/// Whether the property's type is one that is asked for.
pub open spec fn is_asked(p: JsonValue) -> bool {
    let t = type_of(p);
    t == "string"@ || t == "integer"@ || t == "number"@ || t == "boolean"@
}

/// The prompt shown for the property `key`: its `x-prompt`, or
/// `Enter value for KEY:`.
pub open spec fn prompt_of(key: Seq<char>, p: JsonValue) -> Seq<char> {
    match text_of(field(p, "x-prompt"@)) {
        Some(t) => t,
        None => "Enter value for "@ + key + ":"@,
    }
}

/// The text default of a property, empty when it has none.
pub open spec fn text_default_of(p: JsonValue) -> Seq<char> {
    match text_of(field(p, "default"@)) {
        Some(t) => t,
        None => Seq::empty(),
    }
}

/// The integer default of a property, 0 when it has none.
pub open spec fn integer_default_of(p: JsonValue) -> i64 {
    match field(p, "default"@) {
        Some(JsonValue::Number(n)) => match n.as_integer {
            Some(i) => i,
            None => 0,
        },
        _ => 0,
    }
}

/// The boolean default of a property, `false` when it has none.
pub open spec fn bool_default_of(p: JsonValue) -> bool {
    match field(p, "default"@) {
        Some(JsonValue::Bool(b)) => b,
        _ => false,
    }
}

/// The choices of an `enum` property: the texts in its `enum` array.
pub open spec fn options_of(p: JsonValue) -> Seq<Seq<char>> {
    match field(p, "enum"@) {
        Some(JsonValue::Array(items)) => texts_in(items@),
        _ => Seq::empty(),
    }
}

/// The casings requested by a string property's `x-casing` array.
pub open spec fn casings_of(p: JsonValue) -> Seq<Seq<char>> {
    match field(p, "x-casing"@) {
        Some(JsonValue::Array(items)) => casings_in(items@),
        _ => Seq::empty(),
    }
}

/// The first index at which `s` holds `x`, or 0 when it holds none.
pub open spec fn position_or_first(s: Seq<Seq<char>>, x: Seq<char>) -> int
    decreases s.len(),
{
    if s.len() == 0 {
        0
    } else if s[0] == x {
        0
    } else if s.drop_first().contains(x) {
        1 + position_or_first(s.drop_first(), x)
    } else {
        0
    }
}

/// How a property is asked for.
#[derive(Debug)]
pub enum PromptKind {
    /// Free text; the default is offered (`offer_default`) when it is not
    /// empty, and taken when the prompt fails.
    Text { default_text: String, offer_default: bool },
    /// A choice among `options`, preselecting `default_index`.
    Select { options: Vec<String>, default_index: Option<usize> },
    /// An integer; the default is offered (`offer_default`) when it is not
    /// 0, and taken when the prompt fails.
    Integer { default_integer: i64, offer_default: bool },
    /// A number; its default is the schema's number, if any, else 0.
    Number { default_number: Option<JsonNumber> },
    /// A boolean; `default` is offered and taken when the prompt fails.
    Boolean { default_bool: bool },
}

/// The prompt for one property.
#[derive(Debug)]
pub struct PromptPlan {
    pub key: String,
    pub prompt: String,
    pub kind: PromptKind,
    /// The casings under which a string answer is also recorded.
    pub casings: Vec<String>,
}

/// `plan` is the prompt for the property `key` described by `p`.
pub open spec fn plans_property(plan: PromptPlan, key: Seq<char>, p: JsonValue) -> bool {
    &&& plan.key@ == key
    &&& plan.prompt@ == prompt_of(key, p)
    &&& views(plan.casings@) == (if type_of(p) == "string"@ {
        casings_of(p)
    } else {
        Seq::empty()
    })
    &&& match plan.kind {
        PromptKind::Text { default_text, offer_default } => type_of(p) == "string"@ && field(
            p,
            "enum"@,
        ) is None && default_text@ == text_default_of(p) && offer_default == (default_text@.len()
            > 0),
        PromptKind::Select { options, default_index } => {
            &&& type_of(p) == "string"@
            &&& field(p, "enum"@) is Some
            &&& views(options@) == options_of(p)
            &&& match default_index {
                None => text_default_of(p).len() == 0,
                Some(i) => text_default_of(p).len() > 0 && i == position_or_first(
                    options_of(p),
                    text_default_of(p),
                ),
            }
        },
        PromptKind::Integer { default_integer, offer_default } => type_of(p) == "integer"@
            && default_integer == integer_default_of(p) && offer_default == (default_integer != 0),
        PromptKind::Number { default_number } => type_of(p) == "number"@ && match field(
            p,
            "default"@,
        ) {
            Some(JsonValue::Number(n)) => default_number == Some(n),
            _ => default_number is None,
        },
        PromptKind::Boolean { default_bool } => type_of(p) == "boolean"@ && default_bool
            == bool_default_of(p),
    }
}


/// The texts among `items`.
fn collect_texts(items: &Vec<JsonValue>) -> (r: Vec<String>)
    ensures
        views(r@) == texts_in(items@),
{
    let mut out: Vec<String> = Vec::new();
    let mut i: usize = 0;
    assert(items@.take(0) =~= Seq::<JsonValue>::empty());
    assert(views(out@) =~= Seq::<Seq<char>>::empty());
    while i < items.len()
        invariant
            i <= items@.len(),
            views(out@) == texts_in(items@.take(i as int)),
        decreases items@.len() - i,
    {
        assert(items@.take(i + 1).drop_last() =~= items@.take(i as int));
        assert(items@.take(i + 1).last() == items@[i as int]);
        match &items[i] {
            JsonValue::Text(s) => {
                out.push(s.clone());
                assert(views(out@) =~= texts_in(items@.take(i as int)).push(s@));
            },
            _ => {},
        }
        i = i + 1;
    }
    assert(items@.take(items@.len() as int) =~= items@);
    out
}

/// Whether `s` names one of the known casings.
fn is_casing_name(s: &str) -> (r: bool)
    ensures
        r == casing_names().contains(s@),
{
    let ghost names = casing_names();
    assert(names[0] == "camelCase"@);
    assert(names[1] == "PascalCase"@);
    assert(names[2] == "snake_case"@);
    assert(names[3] == "kebab-case"@);
    assert(names[4] == "UPPER_CASE"@);
    let r = same_text(s, "camelCase") || same_text(s, "PascalCase") || same_text(s, "snake_case")
        || same_text(s, "kebab-case") || same_text(s, "UPPER_CASE");
    if r {
        assert(names.contains(s@));
    } else {
        assert(!names.contains(s@)) by {
            if names.contains(s@) {
                let i = choose|i: int| 0 <= i < names.len() && names[i] == s@;
                assert(0 <= i < 5);
            }
        }
    }
    r
}

/// The known casings among `items`.
fn collect_casings(items: &Vec<JsonValue>) -> (r: Vec<String>)
    ensures
        views(r@) == casings_in(items@),
{
    let mut out: Vec<String> = Vec::new();
    let mut i: usize = 0;
    assert(items@.take(0) =~= Seq::<JsonValue>::empty());
    assert(views(out@) =~= Seq::<Seq<char>>::empty());
    while i < items.len()
        invariant
            i <= items@.len(),
            views(out@) == casings_in(items@.take(i as int)),
        decreases items@.len() - i,
    {
        assert(items@.take(i + 1).drop_last() =~= items@.take(i as int));
        assert(items@.take(i + 1).last() == items@[i as int]);
        match &items[i] {
            JsonValue::Text(s) => {
                if is_casing_name(s.as_str()) {
                    out.push(s.clone());
                    assert(views(out@) =~= casings_in(items@.take(i as int)).push(s@));
                }
            },
            _ => {},
        }
        i = i + 1;
    }
    assert(items@.take(items@.len() as int) =~= items@);
    out
}

/// The preselected option is the first one equal to the default, or the
/// first option when none is.
pub proof fn law_default_choice_is_first_match(s: Seq<Seq<char>>, x: Seq<char>)
    ensures
        s.contains(x) ==> {
            let i = position_or_first(s, x);
            &&& 0 <= i < s.len()
            &&& s[i] == x
            &&& forall|j: int| 0 <= j < i ==> s[j] != x
        },
        !s.contains(x) ==> position_or_first(s, x) == 0,
    decreases s.len(),
{
    if s.len() > 0 {
        law_default_choice_is_first_match(s.drop_first(), x);
        if s[0] != x && s.contains(x) {
            let k = choose|k: int| 0 <= k < s.len() && s[k] == x;
            assert(s.drop_first()[k - 1] == x);
            assert(s.drop_first().contains(x));
            let i = position_or_first(s, x);
            assert forall|j: int| 0 <= j < i implies s[j] != x by {
                if j > 0 {
                    assert(s[j] == s.drop_first()[j - 1]);
                }
            }
        }
        if !s.contains(x) && s.drop_first().contains(x) {
            let k = choose|k: int| 0 <= k < s.drop_first().len() && s.drop_first()[k] == x;
            assert(s[k + 1] == x);
        }
    }
}

proof fn lemma_position_found(s: Seq<Seq<char>>, x: Seq<char>, i: int)
    requires
        0 <= i < s.len(),
        s[i] == x,
        forall|j: int| 0 <= j < i ==> s[j] != x,
    ensures
        position_or_first(s, x) == i,
    decreases i,
{
    if i > 0 {
        assert(s.drop_first()[i - 1] == x);
        assert(s.drop_first().contains(x));
        lemma_position_found(s.drop_first(), x, i - 1);
    }
}

/// The first index of `x` in `s`, or 0 when `s` does not hold it.
fn find_position(s: &Vec<String>, x: &str) -> (r: usize)
    ensures
        r == position_or_first(views(s@), x@),
{
    let ghost v = views(s@);
    let mut i: usize = 0;
    while i < s.len()
        invariant
            v == views(s@),
            i <= s@.len(),
            forall|j: int| 0 <= j < i ==> v[j] != x@,
        decreases s@.len() - i,
    {
        if same_text(s[i].as_str(), x) {
            proof {
                lemma_position_found(v, x@, i as int);
            }
            return i;
        }
        i = i + 1;
    }
    proof {
        if v.len() > 0 {
            assert(v[0] != x@);
            assert(!v.drop_first().contains(x@)) by {
                if v.drop_first().contains(x@) {
                    let j = choose|j: int| 0 <= j < v.drop_first().len() && v.drop_first()[j] == x@;
                    assert(v[j + 1] == x@);
                }
            }
        }
    }
    0
}


/// The text of the member `key` of `p` when it is a string, else empty.
fn text_member_or_empty(p: &JsonValue, key: &str) -> (r: String)
    ensures
        r@ == (match text_of(field(*p, key@)) {
            Some(t) => t,
            None => Seq::empty(),
        }),
{
    match get_text(get_field(p, key)) {
        Some(t) => t.clone(),
        None => String::new(),
    }
}

/// Plans the prompt for the property `key` described by `property`;
/// properties of another type than `string`, `integer`, `number` or
/// `boolean` are not asked for.
pub fn plan_property(key: &String, property: &JsonValue) -> (r: Option<PromptPlan>)
    ensures
        match r {
            Some(plan) => is_asked(*property) && plans_property(plan, key@, *property),
            None => !is_asked(*property),
        },
{
    let ty: &str = match get_text(get_field(property, "type")) {
        Some(t) => t.as_str(),
        None => "string",
    };
    assert(ty@ == type_of(*property));
    let prompt = match get_text(get_field(property, "x-prompt")) {
        Some(t) => t.clone(),
        None => {
            let mut t = String::from_str("Enter value for ");
            t.append(key.as_str());
            t.append(":");
            t
        },
    };
    if same_text(ty, "string") {
        let casings = match get_field(property, "x-casing") {
            Some(JsonValue::Array(items)) => collect_casings(items),
            _ => Vec::new(),
        };
        assert(views(casings@) == casings_of(*property)) by {
            if !(field(*property, "x-casing"@) matches Some(JsonValue::Array(_))) {
                assert(views(casings@) =~= Seq::<Seq<char>>::empty());
            }
        }
        let default_text = text_member_or_empty(property, "default");
        let kind = match get_field(property, "enum") {
            Some(e) => {
                let options = match e {
                    JsonValue::Array(items) => collect_texts(items),
                    _ => Vec::new(),
                };
                assert(views(options@) == options_of(*property)) by {
                    if !(field(*property, "enum"@) matches Some(JsonValue::Array(_))) {
                        assert(views(options@) =~= Seq::<Seq<char>>::empty());
                    }
                }
                let default_index = if default_text.as_str().unicode_len() == 0 {
                    None
                } else {
                    Some(find_position(&options, default_text.as_str()))
                };
                PromptKind::Select { options, default_index }
            },
            None => {
                let offer_default = default_text.as_str().unicode_len() != 0;
                PromptKind::Text { default_text, offer_default }
            },
        };
        Some(PromptPlan { key: key.clone(), prompt, kind, casings })
    } else if same_text(ty, "integer") {
        let default_integer = match get_field(property, "default") {
            Some(JsonValue::Number(n)) => match n.as_integer {
                Some(i) => i,
                None => 0,
            },
            _ => 0,
        };
        let casings: Vec<String> = Vec::new();
        assert(views(casings@) =~= Seq::<Seq<char>>::empty());
        Some(PromptPlan { key: key.clone(), prompt, kind: PromptKind::Integer { default_integer, offer_default: default_integer != 0 }, casings })
    } else if same_text(ty, "number") {
        let default_number = match get_field(property, "default") {
            Some(JsonValue::Number(n)) => Some(crate::json::copy_number(n)),
            _ => None,
        };
        let casings: Vec<String> = Vec::new();
        assert(views(casings@) =~= Seq::<Seq<char>>::empty());
        Some(PromptPlan { key: key.clone(), prompt, kind: PromptKind::Number { default_number }, casings })
    } else if same_text(ty, "boolean") {
        let default_bool = match get_field(property, "default") {
            Some(JsonValue::Bool(b)) => *b,
            _ => false,
        };
        let casings: Vec<String> = Vec::new();
        assert(views(casings@) =~= Seq::<Seq<char>>::empty());
        Some(PromptPlan { key: key.clone(), prompt, kind: PromptKind::Boolean { default_bool }, casings })
    } else {
        None
    }
}


/// The schema's `properties` member is absent or an object (the only shapes
/// that can be read; any other one cannot be asked for), whose members come
/// in increasing name order, each name once, as a parsed JSON object's do.
pub open spec fn properties_readable(schema: JsonValue) -> bool {
    match field(schema, "properties"@) {
        None => true,
        Some(JsonValue::Object(members)) => increasing(names_of(members@)),
        _ => false,
    }
}

/// Whether the names of `members` increase.
fn names_increase(members: &Vec<(String, JsonValue)>) -> (r: bool)
    ensures
        r == increasing(names_of(members@)),
{
    let ghost ks = names_of(members@);
    let mut i: usize = 1;
    if members.len() == 0 {
        return true;
    }
    while i < members.len()
        invariant
            ks == names_of(members@),
            1 <= i <= members@.len(),
            forall|a: int, b: int| 0 <= a < b < i ==> text_less(#[trigger] ks[a], #[trigger] ks[b]),
        decreases members@.len() - i,
    {
        assert(ks[i - 1] == members@[i - 1].0@);
        assert(ks[i as int] == members@[i as int].0@);
        match compare_text(members[i - 1].0.as_str(), members[i].0.as_str()) {
            Order::Less => {
                proof {
                    assert forall|a: int, b: int| 0 <= a < b < i + 1 implies text_less(
                        #[trigger] ks[a],
                        #[trigger] ks[b],
                    ) by {
                        if b == i && a < i - 1 {
                            lemma_text_less_transitive(ks[a], ks[i - 1], ks[b]);
                        }
                    }
                }
                i = i + 1;
            },
            _ => {
                proof {
                    lemma_text_less_total(ks[i - 1], ks[i as int]);
                }
                return false;
            },
        }
    }
    true
}

/// Whether the schema's `properties` member can be read.
pub fn properties_are_readable(schema: &JsonValue) -> (r: bool)
    ensures
        r == properties_readable(*schema),
{
    match get_field(schema, "properties") {
        None => true,
        Some(JsonValue::Object(members)) => names_increase(members),
        _ => false,
    }
}

/// The properties of a schema, in the order they are asked.
pub open spec fn properties_of(schema: JsonValue) -> Seq<(String, JsonValue)> {
    match field(schema, "properties"@) {
        Some(JsonValue::Object(members)) => members@,
        _ => Seq::empty(),
    }
}

/// The indices of the properties that are asked for, in increasing order.
pub open spec fn asked_indices(props: Seq<(String, JsonValue)>) -> Seq<int>
    decreases props.len(),
{
    if props.len() == 0 {
        Seq::empty()
    } else {
        let rest = asked_indices(props.drop_last());
        if is_asked(props.last().1) {
            rest.push(props.len() - 1)
        } else {
            rest
        }
    }
}

proof fn lemma_asked_indices_bounded(props: Seq<(String, JsonValue)>)
    ensures
        forall|j: int|
            0 <= j < asked_indices(props).len() ==> 0 <= #[trigger] asked_indices(props)[j]
                < props.len(),
    decreases props.len(),
{
    if props.len() > 0 {
        let rest = props.drop_last();
        lemma_asked_indices_bounded(rest);
        let a = asked_indices(props);
        assert forall|j: int| 0 <= j < a.len() implies 0 <= #[trigger] a[j] < props.len() by {
            if j < asked_indices(rest).len() {
                assert(a[j] == asked_indices(rest)[j]);
            }
        }
    }
}

/// `plans` asks, in order, for each property of `props` that is asked for.
pub open spec fn plans_properties(plans: Seq<PromptPlan>, props: Seq<(String, JsonValue)>) -> bool {
    &&& plans.len() == asked_indices(props).len()
    &&& forall|j: int|
        0 <= j < plans.len() ==> plans_property(
            #[trigger] plans[j],
            props[asked_indices(props)[j]].0@,
            props[asked_indices(props)[j]].1,
        )
}

/// The prompts a schema asks, one per property of a known type, in the
/// order of its `properties`.
pub fn plan_prompts(schema: &JsonValue) -> (plans: Vec<PromptPlan>)
    requires
        properties_readable(*schema),
    ensures
        plans_properties(plans@, properties_of(*schema)),
{
    let mut plans: Vec<PromptPlan> = Vec::new();
    let props: &Vec<(String, JsonValue)> = match get_field(schema, "properties") {
        Some(JsonValue::Object(members)) => members,
        _ => {
            assert(plans_properties(plans@, properties_of(*schema))) by {
                assert(properties_of(*schema) =~= Seq::<(String, JsonValue)>::empty());
            }
            return plans;
        },
    };
    assert(props@ == properties_of(*schema));
    let mut i: usize = 0;
    assert(props@.take(0) =~= Seq::<(String, JsonValue)>::empty());
    while i < props.len()
        invariant
            i <= props@.len(),
            plans_properties(plans@, props@.take(i as int)),
        decreases props@.len() - i,
    {
        let ghost before = props@.take(i as int);
        let ghost after = props@.take(i + 1);
        assert(after.drop_last() =~= before);
        assert(after.last() == props@[i as int]);
        proof {
            lemma_asked_indices_bounded(before);
        }
        assert forall|j: int| 0 <= j < asked_indices(before).len() implies after[asked_indices(
            before,
        )[j]] == #[trigger] before[asked_indices(before)[j]] by {}
        let (key, property) = (&props[i].0, &props[i].1);
        match plan_property(key, property) {
            Some(plan) => {
                plans.push(plan);
            },
            None => {},
        }
        i = i + 1;
    }
    assert(props@.take(props@.len() as int) =~= props@);
    plans
}


/// The key under which a casing of the answer for `key` is recorded:
/// `KEY_CASING`.
pub open spec fn casing_key(key: Seq<char>, casing: Seq<char>) -> Seq<char> {
    key + "_"@ + casing
}

/// `after` is `before` with the text `value` recorded under `key` and its
/// conversion to each of `casings` under the matching casing key.
pub open spec fn records_text(
    before: Map<Seq<char>, JsonValue>,
    after: Map<Seq<char>, JsonValue>,
    key: Seq<char>,
    value: Seq<char>,
    casings: Seq<Seq<char>>,
) -> bool {
    &&& forall|k: Seq<char>|
        #[trigger] after.contains_key(k) <==> (before.contains_key(k) || k == key || exists|i: int|
            0 <= i < casings.len() && k == casing_key(key, #[trigger] casings[i]))
    &&& after[key] matches JsonValue::Text(s) && s@ == value
    &&& forall|i: int|
        0 <= i < casings.len() ==> (after[casing_key(key, #[trigger] casings[i])] matches JsonValue::Text(s)
            && s@ == cased(value, casings[i]))
    &&& forall|k: Seq<char>|
        before.contains_key(k) && k != key && !(exists|i: int|
            0 <= i < casings.len() && k == casing_key(key, #[trigger] casings[i])) ==> #[trigger] after[k]
            == before[k]
}

/// The casing key is the property's key, one `_`, then the casing name.
pub proof fn law_casing_key_shape(key: Seq<char>, casing: Seq<char>)
    ensures
        casing_key(key, casing).len() == key.len() + 1 + casing.len(),
        casing_key(key, casing).take(key.len() as int) == key,
        casing_key(key, casing)[key.len() as int] == '_',
        casing_key(key, casing).skip(key.len() + 1int) == casing,
{
    reveal_strlit("_");
    assert(casing_key(key, casing).take(key.len() as int) =~= key);
    assert(casing_key(key, casing).skip(key.len() + 1int) =~= casing);
}

proof fn lemma_casing_keys(key: Seq<char>, c: Seq<char>, d: Seq<char>)
    ensures
        casing_key(key, c) != key,
        casing_key(key, c) == casing_key(key, d) ==> c == d,
{
    reveal_strlit("_");
    assert(casing_key(key, c).len() == key.len() + 1 + c.len());
    if casing_key(key, c) == casing_key(key, d) {
        assert(casing_key(key, c).skip(key.len() + 1int) =~= c);
        assert(casing_key(key, d).skip(key.len() + 1int) =~= d);
    }
}

/// Records the text `value` under `key` and, for each of `casings`, its
/// conversion under the casing key.
fn record_text(answers: &mut NameMap<JsonValue>, key: &String, value: String, casings: &Vec<String>)
    ensures
        records_text(old(answers)@, final(answers)@, key@, value@, views(casings@)),
{
    let ghost before = answers@;
    let ghost cs = views(casings@);
    answers.insert(key.clone(), JsonValue::Text(value.clone()));
    let mut j: usize = 0;
    while j < casings.len()
        invariant
            j <= casings@.len(),
            cs == views(casings@),
            records_text(before, answers@, key@, value@, cs.take(j as int)),
        decreases casings@.len() - j,
    {
        let ghost prev = answers@;
        let ghost done = cs.take(j as int);
        let ghost next = cs.take(j + 1);
        let c = &casings[j];
        let mut k = key.clone();
        k.append("_");
        k.append(c.as_str());
        let converted = to_case(value.clone(), c.as_str());
        answers.insert(k, JsonValue::Text(converted));
        proof {
            assert(next =~= done.push(c@));
            assert(k@ == casing_key(key@, c@));
            lemma_casing_keys(key@, c@, c@);
            assert forall|i: int| 0 <= i < done.len() implies casing_key(key@, #[trigger] done[i]) != key@ by {
                lemma_casing_keys(key@, done[i], c@);
            }
            assert forall|x: Seq<char>| #[trigger] answers@.contains_key(x) <==> (before.contains_key(x) || x == key@
                || exists|i: int| 0 <= i < next.len() && x == casing_key(key@, #[trigger] next[i])) by {
                if x == k@ {
                    assert(next[j as int] == c@);
                }
                if exists|i: int| 0 <= i < next.len() && x == casing_key(key@, #[trigger] next[i]) {
                    let i = choose|i: int| 0 <= i < next.len() && x == casing_key(key@, #[trigger] next[i]);
                    if i < done.len() {
                        assert(next[i] == done[i]);
                    }
                }
                if exists|i: int| 0 <= i < done.len() && x == casing_key(key@, #[trigger] done[i]) {
                    let i = choose|i: int| 0 <= i < done.len() && x == casing_key(key@, #[trigger] done[i]);
                    assert(next[i] == done[i]);
                }
            }
            assert forall|i: int| 0 <= i < next.len() implies (answers@[casing_key(key@, #[trigger] next[i])] matches JsonValue::Text(s)
                && s@ == cased(value@, next[i])) by {
                if i < done.len() {
                    assert(next[i] == done[i]);
                    lemma_casing_keys(key@, done[i], c@);
                }
            }
            assert forall|x: Seq<char>| before.contains_key(x) && x != key@ && !(exists|i: int|
                0 <= i < next.len() && x == casing_key(key@, #[trigger] next[i])) implies #[trigger] answers@[x]
                == before[x] by {
                assert(next[j as int] == c@);
                if exists|i: int| 0 <= i < done.len() && x == casing_key(key@, #[trigger] done[i]) {
                    let i = choose|i: int| 0 <= i < done.len() && x == casing_key(key@, #[trigger] done[i]);
                    assert(next[i] == done[i]);
                }
            }
        }
        j = j + 1;
    }
    assert(cs.take(casings@.len() as int) =~= cs);
}


/// What the user gave for one prompt.
#[derive(Debug)]
pub enum Answer {
    /// Text typed at a text prompt.
    Text(String),
    /// The index of the option picked at a choice prompt.
    Choice(usize),
    /// An integer typed at an integer prompt.
    Integer(i64),
    /// A number typed at a number prompt (or its default).
    Number(JsonNumber),
    /// A boolean given at a boolean prompt.
    Boolean(bool),
    /// The prompt failed, for the reason given.
    Failed(String),
}

/// The answer can come from a prompt of the planned kind.
pub open spec fn answer_fits(kind: PromptKind, answer: Answer) -> bool {
    match kind {
        PromptKind::Text { .. } => answer is Text || answer is Failed,
        PromptKind::Select { options, .. } => (answer matches Answer::Choice(i) && i
            < options@.len()) || answer is Failed,
        PromptKind::Integer { .. } => answer is Integer || answer is Failed,
        PromptKind::Number { .. } => answer is Number,
        PromptKind::Boolean { .. } => answer is Boolean || answer is Failed,
    }
}

/// `after` is `before` with the answer to `plan` recorded: text under the key
/// and its casing keys (a failed text prompt gives the default text); an
/// integer, number or boolean under the key (a failed prompt gives the
/// default).
pub open spec fn records_answer(
    before: Map<Seq<char>, JsonValue>,
    after: Map<Seq<char>, JsonValue>,
    plan: PromptPlan,
    answer: Answer,
) -> bool {
    let key = plan.key@;
    match plan.kind {
        PromptKind::Text { default_text, .. } => records_text(
            before,
            after,
            key,
            match answer {
                Answer::Text(s) => s@,
                _ => default_text@,
            },
            views(plan.casings@),
        ),
        PromptKind::Select { options, .. } => match answer {
            Answer::Choice(i) => records_text(
                before,
                after,
                key,
                options@[i as int]@,
                views(plan.casings@),
            ),
            _ => false,
        },
        PromptKind::Integer { default_integer, .. } => {
            let v = match answer {
                Answer::Integer(i) => i,
                _ => default_integer,
            };
            &&& after == before.insert(key, JsonValue::Number(json_integer(v)))
            &&& after[key] matches JsonValue::Number(n) && n.as_integer == Some(v)
        },
        PromptKind::Number { .. } => match answer {
            Answer::Number(n) => after == before.insert(key, JsonValue::Number(n)),
            _ => false,
        },
        PromptKind::Boolean { default_bool } => after == before.insert(
            key,
            JsonValue::Bool(
                match answer {
                    Answer::Boolean(b) => b,
                    _ => default_bool,
                },
            ),
        ),
    }
}

/// Why the inputs could not be collected.
#[derive(Debug)]
pub enum InputError {
    /// A prompt failed.
    Prompt(String),
    /// The schema could not be compiled, or the answers break it.
    ValidationErrors(Vec<String>),
}

/// Records the answer given to `plan`.  A failed choice prompt ends the
/// inputs with its error; any other failed prompt falls back to the default.
pub fn record_answer(answers: &mut NameMap<JsonValue>, plan: &PromptPlan, answer: Answer) -> (r:
    Result<(), InputError>)
    requires
        answer_fits(plan.kind, answer),
    ensures
        match (plan.kind, answer) {
            (PromptKind::Select { .. }, Answer::Failed(m)) => (r matches Err(InputError::Prompt(e))
                && e@ == m@) && final(answers)@ == old(answers)@,
            _ => r is Ok && records_answer(old(answers)@, final(answers)@, *plan, answer),
        },
{
    match &plan.kind {
        PromptKind::Text { default_text, .. } => {
            let value = match answer {
                Answer::Text(s) => s,
                _ => default_text.clone(),
            };
            record_text(answers, &plan.key, value, &plan.casings);
            Ok(())
        },
        PromptKind::Select { options, .. } => match answer {
            Answer::Choice(i) => {
                record_text(answers, &plan.key, options[i].clone(), &plan.casings);
                Ok(())
            },
            Answer::Failed(m) => Err(InputError::Prompt(m)),
            _ => Err(InputError::Prompt(String::new())),
        },
        PromptKind::Integer { default_integer, .. } => {
            let v = match answer {
                Answer::Integer(i) => i,
                _ => *default_integer,
            };
            answers.insert(plan.key.clone(), JsonValue::Number(crate::json::integer_number(v)));
            Ok(())
        },
        PromptKind::Number { .. } => match answer {
            Answer::Number(n) => {
                answers.insert(plan.key.clone(), JsonValue::Number(n));
                Ok(())
            },
            _ => Err(InputError::Prompt(String::new())),
        },
        PromptKind::Boolean { default_bool } => {
            let b = match answer {
                Answer::Boolean(b) => b,
                _ => *default_bool,
            };
            answers.insert(plan.key.clone(), JsonValue::Bool(b));
            Ok(())
        },
    }
}


/// The message shown when the inputs could not be collected.
pub open spec fn input_error_message(e: InputError) -> Seq<char> {
    match e {
        InputError::Prompt(m) => "Dialoguer error: "@ + m@,
        InputError::ValidationErrors(es) => "Validation errors: "@ + bullet_lines(views(es@)),
    }
}

/// The lines `- E`, one per message, joined by line breaks.
pub open spec fn bullet_lines(es: Seq<Seq<char>>) -> Seq<char>
    decreases es.len(),
{
    if es.len() == 0 {
        Seq::empty()
    } else if es.len() == 1 {
        "- "@ + es[0]
    } else {
        bullet_lines(es.drop_last()) + "\n"@ + "- "@ + es.last()
    }
}

impl InputError {
    /// The message shown for this error.
    pub fn message(&self) -> (r: String)
        ensures
            r@ == input_error_message(*self),
    {
        match self {
            InputError::Prompt(m) => {
                let mut r = String::from_str("Dialoguer error: ");
                r.append(m.as_str());
                r
            },
            InputError::ValidationErrors(es) => {
                let ghost v = views(es@);
                let mut lines = String::new();
                let mut i: usize = 0;
                assert(v.take(0) =~= Seq::<Seq<char>>::empty());
                while i < es.len()
                    invariant
                        v == views(es@),
                        i <= es@.len(),
                        lines@ == bullet_lines(v.take(i as int)),
                    decreases es@.len() - i,
                {
                    assert(v.take(i + 1).drop_last() =~= v.take(i as int));
                    if i > 0 {
                        lines.append("\n");
                    } else {
                        assert(lines@ =~= Seq::<char>::empty());
                    }
                    lines.append("- ");
                    lines.append(es[i].as_str());
                    proof {
                        if i == 0 {
                            assert(lines@ =~= "- "@ + v.take(1)[0]);
                        } else {
                            assert(lines@ =~= bullet_lines(v.take(i as int)) + "\n"@ + "- "@ + v.take(
                                i + 1,
                            ).last());
                        }
                    }
                    i = i + 1;
                }
                assert(v.take(es@.len() as int) =~= v);
                let mut r = String::from_str("Validation errors: ");
                r.append(lines.as_str());
                r
            },
        }
    }
}

/// A schema is asked about unless it is JSON `null` (a schematic without
/// `schema.json`).
pub fn asks_for_inputs(schema: &JsonValue) -> (r: bool)
    ensures
        r == !(*schema is Null),
{
    !matches!(schema, JsonValue::Null)
}

/// Compiles the schema before anything is asked: a schema that does not
/// compile ends the inputs with its error.
pub fn check_schema(schema: &JsonValue) -> (r: Result<(), InputError>)
    ensures
        match schema_compile_error(*schema) {
            None => r is Ok,
            Some(e) => r matches Err(InputError::ValidationErrors(v)) && views(v@) == seq![e],
        },
{
    match schema_build_error(schema) {
        None => Ok(()),
        Some(e) => {
            let mut v: Vec<String> = Vec::new();
            v.push(e);
            assert(views(v@) =~= seq![v@[0]@]);
            Err(InputError::ValidationErrors(v))
        },
    }
}

/// `instance` is the JSON object holding exactly the answers `m`, one member
/// per key in increasing key order.
pub open spec fn holds_answers(instance: JsonValue, m: Map<Seq<char>, JsonValue>) -> bool {
    instance matches JsonValue::Object(members) && increasing(names_of(members@)) && map_of(
        members@,
    ) == m
}

/// In members with increasing names, the member named `k` is what the map
/// they denote holds under `k`.
pub proof fn lemma_member_of_increasing(s: Seq<(String, JsonValue)>, k: Seq<char>)
    requires
        increasing(names_of(s)),
    ensures
        member(s, k) == (if map_of(s).contains_key(k) {
            Some(map_of(s)[k])
        } else {
            None::<JsonValue>
        }),
    decreases s.len(),
{
    if s.len() > 0 {
        let t = s.drop_first();
        assert(names_of(t) =~= names_of(s).drop_first());
        lemma_member_of_increasing(t, k);
        if s[0].0@ == k {
            lemma_map_of_at(s, 0);
        } else {
            if map_of(s).contains_key(k) {
                let j = choose|j: int| 0 <= j < names_of(s).len() && names_of(s)[j] == k;
                assert(j > 0);
                assert(names_of(t)[j - 1] == k);
                lemma_map_of_at(s, j);
                lemma_map_of_at(t, j - 1);
            }
            if map_of(t).contains_key(k) {
                let j = choose|j: int| 0 <= j < names_of(t).len() && names_of(t)[j] == k;
                assert(names_of(s)[j + 1] == k);
            }
        }
    }
}

/// An instance that holds the answers `m` has, as member `k`, the answer
/// recorded under `k`, and no member where no answer was recorded.
pub proof fn law_instance_members_are_answers(
    instance: JsonValue,
    m: Map<Seq<char>, JsonValue>,
    k: Seq<char>,
)
    requires
        holds_answers(instance, m),
    ensures
        field(instance, k) == (if m.contains_key(k) {
            Some(m[k])
        } else {
            None::<JsonValue>
        }),
{
    if let JsonValue::Object(members) = instance {
        lemma_member_of_increasing(members@, k);
    }
}

/// A text answer recorded for `key` with `casings` reaches the rendering
/// context: the object holding the answers has, as member `key`, the text
/// itself and, as member `KEY_CASING` for each requested casing, the text in
/// that casing.
pub proof fn law_recorded_text_reaches_context(
    before: Map<Seq<char>, JsonValue>,
    after: Map<Seq<char>, JsonValue>,
    key: Seq<char>,
    value: Seq<char>,
    casings: Seq<Seq<char>>,
    instance: JsonValue,
)
    requires
        records_text(before, after, key, value, casings),
        holds_answers(instance, after),
    ensures
        field(instance, key) matches Some(JsonValue::Text(s)) && s@ == value,
        forall|i: int|
            0 <= i < casings.len() ==> (field(instance, casing_key(key, #[trigger] casings[i]))
                matches Some(JsonValue::Text(s)) && s@ == cased(value, casings[i])),
{
    law_instance_members_are_answers(instance, after, key);
    assert forall|i: int| 0 <= i < casings.len() implies (field(
        instance,
        casing_key(key, #[trigger] casings[i]),
    ) matches Some(JsonValue::Text(s)) && s@ == cased(value, casings[i])) by {
        law_instance_members_are_answers(instance, after, casing_key(key, casings[i]));
        assert(after.contains_key(casing_key(key, casings[i])));
    }
}

/// Whatever was answered is what gets recorded under the property's key: a
/// typed text or boolean, the chosen option, the typed integer or number;
/// a failed text or boolean prompt records the property's default.
pub proof fn law_answers_are_recorded_as_given(
    before: Map<Seq<char>, JsonValue>,
    after: Map<Seq<char>, JsonValue>,
    plan: PromptPlan,
    answer: Answer,
)
    requires
        answer_fits(plan.kind, answer),
        records_answer(before, after, plan, answer),
    ensures
        after.contains_key(plan.key@),
        answer matches Answer::Boolean(b) ==> after[plan.key@] == JsonValue::Bool(b),
        answer matches Answer::Text(t) ==> (after[plan.key@] matches JsonValue::Text(s) && s@
            == t@),
        answer matches Answer::Integer(i) ==> (after[plan.key@] matches JsonValue::Number(n)
            && n.as_integer == Some(i)),
        answer matches Answer::Number(n) ==> after[plan.key@] == JsonValue::Number(n),
        plan.kind matches PromptKind::Select { options, .. } ==> (answer matches Answer::Choice(i)
            ==> (after[plan.key@] matches JsonValue::Text(s) && s@ == options@[i as int]@)),
        plan.kind matches PromptKind::Boolean { default_bool } ==> (answer is Failed
            ==> after[plan.key@] == JsonValue::Bool(default_bool)),
        plan.kind matches PromptKind::Text { default_text, .. } ==> (answer is Failed ==> (
        after[plan.key@] matches JsonValue::Text(s) && s@ == default_text@)),
{
}

/// Ends the inputs: the answers become a JSON object, which is checked
/// against the schema.  When the schema compiles, the object is given back
/// exactly when it breaks no rule of the schema, and otherwise the broken
/// rules' messages.
pub fn finish_inputs(schema: &JsonValue, answers: NameMap<JsonValue>) -> (r: Result<
    JsonValue,
    InputError,
>)
    ensures
        schema_compile_error(*schema) is None ==> match r {
            Ok(instance) => holds_answers(instance, answers@) && schema_instance_errors(
                *schema,
                instance,
            ).len() == 0,
            Err(InputError::ValidationErrors(v)) => exists|instance: JsonValue|
                holds_answers(instance, answers@) && views(v@) == schema_instance_errors(
                    *schema,
                    instance,
                ) && v@.len() > 0,
            Err(InputError::Prompt(_)) => false,
        },
{
    let ghost m = answers@;
    let instance = JsonValue::Object(answers.into_entries());
    let errors = instance_errors(schema, &instance);
    if errors.len() == 0 {
        Ok(instance)
    } else {
        assert(holds_answers(instance, m));
        Err(InputError::ValidationErrors(errors))
    }
}

} // verus!
