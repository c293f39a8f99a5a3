//! The payload model: typed prop values, client references, mount
//! identifiers and the hydration bootstrap script.

use crate::text::{
    chars_of, decimal, has_prefix, lemma_decimal_injective, owned, push_decimal, push_str, slice,
    starts_with_str, string_of,
};
use vstd::prelude::*;

verus! {

// ---------------------------------------------------------------------------
// Mount identifiers

/// Hands out mount identifiers: a counter owned by its caller, which
/// starts a fresh epoch with [`reset_mount_counter`], conventionally at the
/// start of each request.
#[derive(Debug)]
pub struct MountIdCounter {
    next: usize,
}

impl View for MountIdCounter {
    type V = nat;

    /// The count the next identifier carries.
    closed spec fn view(&self) -> nat {
        self.next as nat
    }
}

impl MountIdCounter {
    /// A counter at the start of an epoch.
    pub fn new() -> (r: Self)
        ensures
            r@ == 0,
    {
        MountIdCounter { next: 0 }
    }

    /// The count the next identifier carries.
    pub fn current(&self) -> (r: usize)
        ensures
            r as nat == self@,
    {
        self.next
    }
}

/// The mount identifier with count `n`: `__vista_cc_` and `n` in decimal.
pub open spec fn mount_id_of(n: nat) -> Seq<char> {
    "__vista_cc_"@ + decimal(n)
}

/// Starts a new epoch: the next identifier carries count 0.
pub fn reset_mount_counter(counter: &mut MountIdCounter)
    ensures
        final(counter)@ == 0,
{
    counter.next = 0;
}

/// The next mount identifier of the epoch.
pub fn generate_mount_id(counter: &mut MountIdCounter) -> (r: String)
    requires
        old(counter)@ < usize::MAX,
    ensures
        r@ == mount_id_of(old(counter)@),
        final(counter)@ == old(counter)@ + 1,
{
    let id = counter.next;
    counter.next = id + 1;
    let mut r = owned("__vista_cc_");
    push_decimal(&mut r, id);
    r
}

/// Mount identifiers of one epoch do not repeat: identifiers with
/// different counts differ. After a reset the counts run 0, 1, 2, ... with
/// no gap, as the contracts of [`reset_mount_counter`] and
/// [`generate_mount_id`] state.
pub proof fn mount_ids_distinct(i: nat, j: nat)
    requires
        i != j,
    ensures
        mount_id_of(i) != mount_id_of(j),
{
    let p = "__vista_cc_"@;
    if mount_id_of(i) == mount_id_of(j) {
        assert(decimal(i) =~= mount_id_of(i).skip(p.len() as int));
        assert(decimal(j) =~= mount_id_of(j).skip(p.len() as int));
        lemma_decimal_injective(i, j);
    }
}

/// Mount identifiers after a reset: take any run of calls to
/// [`generate_mount_id`] that starts from a reset counter, where `counts`
/// holds the counter before each call and after the last and `ids` what
/// each call returned, as the contracts relate them. Then the `k`-th
/// identifier is `__vista_cc_` followed by `k`, with no gaps and no
/// repeats.
pub proof fn mount_ids_after_reset(counts: Seq<nat>, ids: Seq<Seq<char>>)
    requires
        counts.len() == ids.len() + 1,
        counts[0] == 0,
        forall|i: int|
            0 <= i < ids.len() ==> #[trigger] ids[i] == mount_id_of(counts[i]) && counts[i + 1]
                == counts[i] + 1,
    ensures
        forall|k: int| 0 <= k < ids.len() ==> #[trigger] ids[k] == "__vista_cc_"@ + decimal(k as nat),
        forall|i: int, j: int| 0 <= i < ids.len() && 0 <= j < ids.len() && i != j ==> ids[i] != ids[j],
{
    assert forall|k: int| 0 <= k <= ids.len() implies #[trigger] counts[k] == k by {
        lemma_counts(counts, ids, k);
    }
    assert forall|i: int, j: int|
        0 <= i < ids.len() && 0 <= j < ids.len() && i != j implies ids[i] != ids[j] by {
        assert(counts[i] == i && counts[j] == j);
        assert(ids[i] == mount_id_of(counts[i]));
        assert(ids[j] == mount_id_of(counts[j]));
        mount_ids_distinct(counts[i], counts[j]);
    }
    assert forall|k: int| 0 <= k < ids.len() implies #[trigger] ids[k] == "__vista_cc_"@ + decimal(
        k as nat,
    ) by {
        assert(counts[k] == k);
        assert(ids[k] == mount_id_of(counts[k]));
    }
}

proof fn lemma_counts(counts: Seq<nat>, ids: Seq<Seq<char>>, k: int)
    requires
        counts.len() == ids.len() + 1,
        counts[0] == 0,
        forall|i: int|
            0 <= i < ids.len() ==> #[trigger] ids[i] == mount_id_of(counts[i]) && counts[i + 1]
                == counts[i] + 1,
        0 <= k <= ids.len(),
    ensures
        counts[k] == k,
    decreases k,
{
    if k > 0 {
        lemma_counts(counts, ids, k - 1);
        assert(ids[k - 1] == mount_id_of(counts[k - 1]));
    }
}

// ---------------------------------------------------------------------------
// Values

/// A value as the host's rendering step hands it over, in the shape of
/// JSON. A number is held as the bits of its 64-bit float.
#[derive(Debug)]
pub enum JsonValue {
    Null,
    Bool(bool),
    /// The IEEE-754 bits of the number.
    Number(u64),
    String(String),
    Array(Vec<JsonValue>),
    /// Fields in order, each name once.
    Object(Vec<(String, JsonValue)>),
}

/// A prop value on the wire, tagged by its type.
#[derive(Debug)]
pub enum SerializedValue {
    Null,
    Undefined,
    Boolean(bool),
    /// The IEEE-754 bits of the number.
    Number(u64),
    String(String),
    Date(String),
    Array(Vec<SerializedValue>),
    /// Fields in order, each name once.
    Object(Vec<(String, SerializedValue)>),
    /// A React element rendered on the server.
    ReactElement { id: String },
    Symbol(String),
    /// A function, which cannot cross to the client: its name only.
    Function { name: String },
}

pub enum JsonModel {
    Null,
    Bool(bool),
    Number(u64),
    String(Seq<char>),
    Array(Seq<JsonModel>),
    Object(Seq<(Seq<char>, JsonModel)>),
}

pub enum ValueModel {
    Null,
    Undefined,
    Boolean(bool),
    Number(u64),
    String(Seq<char>),
    Date(Seq<char>),
    Array(Seq<ValueModel>),
    Object(Seq<(Seq<char>, ValueModel)>),
    ReactElement(Seq<char>),
    Symbol(Seq<char>),
    Function(Seq<char>),
}

/// The model of a JSON value.
pub open spec fn json_model(v: JsonValue) -> JsonModel
    decreases v, 0int,
{
    match v {
        JsonValue::Null => JsonModel::Null,
        JsonValue::Bool(b) => JsonModel::Bool(b),
        JsonValue::Number(n) => JsonModel::Number(n),
        JsonValue::String(s) => JsonModel::String(s@),
        JsonValue::Array(items) => JsonModel::Array(json_models(items@, items@.len() as int)),
        JsonValue::Object(fields) => JsonModel::Object(
            json_field_models(fields@, fields@.len() as int),
        ),
    }
}

/// The models of the first `k` items.
pub open spec fn json_models(items: Seq<JsonValue>, k: int) -> Seq<JsonModel>
    decreases items, k,
{
    if k <= 0 || k > items.len() {
        Seq::empty()
    } else {
        json_models(items, k - 1).push(json_model(items[k - 1]))
    }
}

/// The models of the first `k` fields.
pub open spec fn json_field_models(fields: Seq<(String, JsonValue)>, k: int) -> Seq<
    (Seq<char>, JsonModel),
>
    decreases fields, k,
{
    if k <= 0 || k > fields.len() {
        Seq::empty()
    } else {
        json_field_models(fields, k - 1).push((fields[k - 1].0@, json_model(fields[k - 1].1)))
    }
}

/// The model of a prop value.
pub open spec fn value_model(v: SerializedValue) -> ValueModel
    decreases v, 0int,
{
    match v {
        SerializedValue::Null => ValueModel::Null,
        SerializedValue::Undefined => ValueModel::Undefined,
        SerializedValue::Boolean(b) => ValueModel::Boolean(b),
        SerializedValue::Number(n) => ValueModel::Number(n),
        SerializedValue::String(s) => ValueModel::String(s@),
        SerializedValue::Date(s) => ValueModel::Date(s@),
        SerializedValue::Array(items) => ValueModel::Array(value_models(items@, items@.len() as int)),
        SerializedValue::Object(fields) => ValueModel::Object(
            value_field_models(fields@, fields@.len() as int),
        ),
        SerializedValue::ReactElement { id } => ValueModel::ReactElement(id@),
        SerializedValue::Symbol(s) => ValueModel::Symbol(s@),
        SerializedValue::Function { name } => ValueModel::Function(name@),
    }
}

/// The models of the first `k` items.
pub open spec fn value_models(items: Seq<SerializedValue>, k: int) -> Seq<ValueModel>
    decreases items, k,
{
    if k <= 0 || k > items.len() {
        Seq::empty()
    } else {
        value_models(items, k - 1).push(value_model(items[k - 1]))
    }
}

/// The models of the first `k` fields.
pub open spec fn value_field_models(fields: Seq<(String, SerializedValue)>, k: int) -> Seq<
    (Seq<char>, ValueModel),
>
    decreases fields, k,
{
    if k <= 0 || k > fields.len() {
        Seq::empty()
    } else {
        value_field_models(fields, k - 1).push((fields[k - 1].0@, value_model(fields[k - 1].1)))
    }
}

/// The value of the first field named `k` at or after `i`.
pub open spec fn field(fields: Seq<(Seq<char>, JsonModel)>, k: Seq<char>, i: int) -> Option<JsonModel>
    decreases fields.len() - i,
{
    if i < 0 || i >= fields.len() {
        None
    } else if fields[i].0 == k {
        Some(fields[i].1)
    } else {
        field(fields, k, i + 1)
    }
}

/// The text of the field named `k`, when it is a string.
pub open spec fn string_field(fields: Seq<(Seq<char>, JsonModel)>, k: Seq<char>) -> Option<Seq<char>> {
    match field(fields, k, 0) {
        Some(JsonModel::String(s)) => Some(s),
        _ => None,
    }
}

/// The prop value of a JSON value: a string with the `__DATE__:` or
/// `__SYMBOL__:` prefix is a date or a symbol; an object whose `__type`
/// names `undefined`, or `Date`, `ReactElement` or `Function` with its
/// `value`, `id` or `name` string, is that; anything else keeps its shape.
pub open spec fn serialized(j: JsonModel) -> ValueModel
    decreases j, 0int,
{
    match j {
        JsonModel::Null => ValueModel::Null,
        JsonModel::Bool(b) => ValueModel::Boolean(b),
        JsonModel::Number(n) => ValueModel::Number(n),
        JsonModel::String(s) => if has_prefix(s, "__DATE__:"@) {
            ValueModel::Date(s.skip("__DATE__:"@.len() as int))
        } else if has_prefix(s, "__SYMBOL__:"@) {
            ValueModel::Symbol(s.skip("__SYMBOL__:"@.len() as int))
        } else {
            ValueModel::String(s)
        },
        JsonModel::Array(items) => ValueModel::Array(serialized_items(items, items.len() as int)),
        JsonModel::Object(fields) => match tagged(fields) {
            Some(v) => v,
            None => ValueModel::Object(serialized_fields(fields, fields.len() as int)),
        },
    }
}

/// The value an object stands for when its `__type` names `undefined`, or
/// names `Date`, `ReactElement` or `Function` and the object has that
/// tag's `value`, `id` or `name` string.
pub open spec fn tagged(fields: Seq<(Seq<char>, JsonModel)>) -> Option<ValueModel> {
    match string_field(fields, "__type"@) {
        Some(t) => if t == "undefined"@ {
            Some(ValueModel::Undefined)
        } else if t == "Date"@ && string_field(fields, "value"@) is Some {
            Some(ValueModel::Date(string_field(fields, "value"@)->0))
        } else if t == "ReactElement"@ && string_field(fields, "id"@) is Some {
            Some(ValueModel::ReactElement(string_field(fields, "id"@)->0))
        } else if t == "Function"@ && string_field(fields, "name"@) is Some {
            Some(ValueModel::Function(string_field(fields, "name"@)->0))
        } else {
            None
        },
        None => None,
    }
}

/// The prop values of the first `k` items.
pub open spec fn serialized_items(items: Seq<JsonModel>, k: int) -> Seq<ValueModel>
    decreases items, k,
{
    if k <= 0 || k > items.len() {
        Seq::empty()
    } else {
        serialized_items(items, k - 1).push(serialized(items[k - 1]))
    }
}

/// The prop values of the first `k` fields.
pub open spec fn serialized_fields(fields: Seq<(Seq<char>, JsonModel)>, k: int) -> Seq<
    (Seq<char>, ValueModel),
>
    decreases fields, k,
{
    if k <= 0 || k > fields.len() {
        Seq::empty()
    } else {
        serialized_fields(fields, k - 1).push((fields[k - 1].0, serialized(fields[k - 1].1)))
    }
}

proof fn lemma_json_models(items: Seq<JsonValue>, k: int)
    requires
        0 <= k <= items.len(),
    ensures
        json_models(items, k).len() == k,
        forall|i: int| 0 <= i < k ==> #[trigger] json_models(items, k)[i] == json_model(items[i]),
    decreases k,
{
    if k > 0 {
        lemma_json_models(items, k - 1);
    }
}

proof fn lemma_json_field_models(fields: Seq<(String, JsonValue)>, k: int)
    requires
        0 <= k <= fields.len(),
    ensures
        json_field_models(fields, k).len() == k,
        forall|i: int|
            0 <= i < k ==> #[trigger] json_field_models(fields, k)[i] == (
                fields[i].0@,
                json_model(fields[i].1),
            ),
    decreases k,
{
    if k > 0 {
        lemma_json_field_models(fields, k - 1);
    }
}

proof fn lemma_value_models(items: Seq<SerializedValue>, k: int)
    requires
        0 <= k <= items.len(),
    ensures
        value_models(items, k).len() == k,
        forall|i: int| 0 <= i < k ==> #[trigger] value_models(items, k)[i] == value_model(items[i]),
    decreases k,
{
    if k > 0 {
        lemma_value_models(items, k - 1);
    }
}

proof fn lemma_value_field_models(fields: Seq<(String, SerializedValue)>, k: int)
    requires
        0 <= k <= fields.len(),
    ensures
        value_field_models(fields, k).len() == k,
        forall|i: int|
            0 <= i < k ==> #[trigger] value_field_models(fields, k)[i] == (
                fields[i].0@,
                value_model(fields[i].1),
            ),
    decreases k,
{
    if k > 0 {
        lemma_value_field_models(fields, k - 1);
    }
}

proof fn lemma_serialized_items(items: Seq<JsonModel>, k: int)
    requires
        0 <= k <= items.len(),
    ensures
        serialized_items(items, k).len() == k,
        forall|i: int| 0 <= i < k ==> #[trigger] serialized_items(items, k)[i] == serialized(items[i]),
    decreases k,
{
    if k > 0 {
        lemma_serialized_items(items, k - 1);
    }
}

proof fn lemma_serialized_fields(fields: Seq<(Seq<char>, JsonModel)>, k: int)
    requires
        0 <= k <= fields.len(),
    ensures
        serialized_fields(fields, k).len() == k,
        forall|i: int|
            0 <= i < k ==> #[trigger] serialized_fields(fields, k)[i] == (
                fields[i].0,
                serialized(fields[i].1),
            ),
    decreases k,
{
    if k > 0 {
        lemma_serialized_fields(fields, k - 1);
    }
}

/// The string value of the first field named `k`, when it is a string.
fn string_field_of<'a>(fields: &'a Vec<(String, JsonValue)>, k: &str) -> (r: Option<&'a String>)
    ensures
        r matches Some(s) ==> string_field(
            json_field_models(fields@, fields@.len() as int),
            k@,
        ) == Some(s@),
        r is None ==> string_field(json_field_models(fields@, fields@.len() as int), k@) is None,
{
    let ghost fm = json_field_models(fields@, fields@.len() as int);
    proof {
        lemma_json_field_models(fields@, fields@.len() as int);
    }
    let key = chars_of(k);
    let mut i: usize = 0;
    while i < fields.len()
        invariant
            fm == json_field_models(fields@, fields@.len() as int),
            fm.len() == fields@.len(),
            forall|j: int|
                0 <= j < fields@.len() ==> #[trigger] fm[j] == (
                    fields@[j].0@,
                    json_model(fields@[j].1),
                ),
            key@ == k@,
            i <= fields@.len(),
            field(fm, k@, 0) == field(fm, k@, i as int),
        decreases fields@.len() - i,
    {
        let name = chars_of(fields[i].0.as_str());
        assert(fm[i as int].0 == name@);
        if crate::text::chars_eq(&name, &key) {
            return match &fields[i].1 {
                JsonValue::String(s) => Some(s),
                _ => None,
            };
        }
        i = i + 1;
    }
    None
}

fn tagged_value(fields: &Vec<(String, JsonValue)>) -> (r: Option<SerializedValue>)
    ensures
        r matches Some(v) ==> tagged(json_field_models(fields@, fields@.len() as int)) == Some(
            value_model(v),
        ),
        r is None ==> tagged(json_field_models(fields@, fields@.len() as int)) is None,
{
    let t = match string_field_of(fields, "__type") {
        Some(t) => t,
        None => {
            return None;
        },
    };
    proof {
        reveal_strlit("Date");
        reveal_strlit("ReactElement");
        reveal_strlit("Function");
        assert("Date"@.len() != "ReactElement"@.len());
        assert("Date"@.len() != "Function"@.len());
        assert("ReactElement"@.len() != "Function"@.len());
    }
    let tc = chars_of(t.as_str());
    if crate::text::eq_str(&tc, "undefined") {
        return Some(SerializedValue::Undefined);
    }
    if crate::text::eq_str(&tc, "Date") {
        return match string_field_of(fields, "value") {
            Some(v) => Some(SerializedValue::Date(v.clone())),
            None => None,
        };
    }
    if crate::text::eq_str(&tc, "ReactElement") {
        return match string_field_of(fields, "id") {
            Some(v) => Some(SerializedValue::ReactElement { id: v.clone() }),
            None => None,
        };
    }
    if crate::text::eq_str(&tc, "Function") {
        return match string_field_of(fields, "name") {
            Some(v) => Some(SerializedValue::Function { name: v.clone() }),
            None => None,
        };
    }
    None
}

fn text_after(s: &Vec<char>, lit: &str) -> (r: String)
    requires
        has_prefix(s@, lit@),
    ensures
        r@ == s@.skip(lit@.len() as int),
{
    let p = chars_of(lit);
    let n = s.len();
    let rest = slice(s, p.len(), n);
    assert(rest@ =~= s@.skip(lit@.len() as int));
    string_of(&rest)
}

/// Converts a value handed over by the host into its tagged prop value:
/// strings with a reserved prefix become dates or symbols, objects whose
/// `__type` names a tag with its expected field become that tag, and
/// everything else keeps its shape.
pub fn serialize_value(value: &JsonValue) -> (r: SerializedValue)
    ensures
        value_model(r) == serialized(json_model(*value)),
    decreases value,
{
    match value {
        JsonValue::Null => SerializedValue::Null,
        JsonValue::Bool(b) => SerializedValue::Boolean(*b),
        JsonValue::Number(n) => SerializedValue::Number(*n),
        JsonValue::String(s) => {
            let c = chars_of(s.as_str());
            if starts_with_str(&c, "__DATE__:") {
                SerializedValue::Date(text_after(&c, "__DATE__:"))
            } else if starts_with_str(&c, "__SYMBOL__:") {
                SerializedValue::Symbol(text_after(&c, "__SYMBOL__:"))
            } else {
                SerializedValue::String(s.clone())
            }
        },
        JsonValue::Array(items) => {
            let ghost jm = json_models(items@, items@.len() as int);
            proof {
                lemma_json_models(items@, items@.len() as int);
            }
            let mut out: Vec<SerializedValue> = Vec::new();
            let mut i: usize = 0;
            while i < items.len()
                invariant
                    *value == JsonValue::Array(*items),
                    jm == json_models(items@, items@.len() as int),
                    jm.len() == items@.len(),
                    forall|j: int| 0 <= j < items@.len() ==> #[trigger] jm[j] == json_model(items@[j]),
                    i <= items@.len(),
                    out@.len() == i,
                    forall|j: int|
                        0 <= j < i ==> value_model(#[trigger] out@[j]) == serialized(jm[j]),
                decreases items@.len() - i,
            {
                proof {
                    assert(decreases_to!(*value => (*value)->Array_0));
                    assert(decreases_to!(*items => items@));
                    assert(decreases_to!(items@ => items@[i as int]));
                    assert(decreases_to!(*value => items@[i as int]));
                }
                let x = serialize_value(&items[i]);
                out.push(x);
                i = i + 1;
            }
            proof {
                lemma_value_models(out@, out@.len() as int);
                lemma_serialized_items(jm, jm.len() as int);
                assert(value_models(out@, out@.len() as int) =~= serialized_items(
                    jm,
                    jm.len() as int,
                ));
            }
            SerializedValue::Array(out)
        },
        JsonValue::Object(fields) => {
            let ghost fm = json_field_models(fields@, fields@.len() as int);
            proof {
                lemma_json_field_models(fields@, fields@.len() as int);
            }
            match tagged_value(fields) {
                Some(v) => {
                    return v;
                },
                None => {},
            }
            let mut out: Vec<(String, SerializedValue)> = Vec::new();
            let mut i: usize = 0;
            while i < fields.len()
                invariant
                    *value == JsonValue::Object(*fields),
                    serialized(json_model(*value)) == ValueModel::Object(
                        serialized_fields(fm, fm.len() as int),
                    ),
                    fm == json_field_models(fields@, fields@.len() as int),
                    fm.len() == fields@.len(),
                    forall|j: int|
                        0 <= j < fields@.len() ==> #[trigger] fm[j] == (
                            fields@[j].0@,
                            json_model(fields@[j].1),
                        ),
                    i <= fields@.len(),
                    out@.len() == i,
                    forall|j: int|
                        0 <= j < i ==> (#[trigger] out@[j]).0@ == fm[j].0 && value_model(
                            out@[j].1,
                        ) == serialized(fm[j].1),
                decreases fields@.len() - i,
            {
                proof {
                    assert(decreases_to!(*value => (*value)->Object_0));
                    assert(decreases_to!(*fields => fields@));
                    assert(decreases_to!(fields@ => fields@[i as int]));
                    assert(decreases_to!(fields@[i as int] => fields@[i as int].1));
                    assert(decreases_to!(*value => fields@[i as int].1));
                }
                let x = serialize_value(&fields[i].1);
                out.push((fields[i].0.clone(), x));
                i = i + 1;
            }
            proof {
                lemma_value_field_models(out@, out@.len() as int);
                lemma_serialized_fields(fm, fm.len() as int);
                assert(value_field_models(out@, out@.len() as int) =~= serialized_fields(
                    fm,
                    fm.len() as int,
                ));
            }
            SerializedValue::Object(out)
        },
    }
}

// ---------------------------------------------------------------------------
// Payloads

/// A client component that the client must hydrate.
#[derive(Debug)]
pub struct ClientReference {
    /// Module identifier from the client manifest.
    pub id: String,
    /// DOM element where the component mounts.
    pub mount_id: String,
    /// Its props, each name once.
    pub props: Vec<(String, SerializedValue)>,
    /// URL of the chunk to load.
    pub chunk_url: String,
    /// The export to use.
    pub export_name: String,
}

/// Route-specific data.
#[derive(Debug)]
pub struct RouteData {
    /// The route pattern.
    pub route: String,
    /// URL parameters, each name once.
    pub params: Vec<(String, String)>,
    /// Search parameters, each name once.
    pub search_params: Vec<(String, String)>,
}

/// What the server sends the client for a page.
#[derive(Debug)]
pub struct RSCPayload {
    /// Server-rendered HTML.
    pub html: String,
    /// The client components to hydrate.
    pub client_references: Vec<ClientReference>,
    /// Route data.
    pub data: RouteData,
    /// Build identifier, for cache validation.
    pub build_id: String,
}

/// A reference to a client component with the next mount identifier of
/// the epoch and the default export.
pub fn create_client_reference(
    counter: &mut MountIdCounter,
    module_id: &str,
    chunk_url: &str,
    props: Vec<(String, SerializedValue)>,
) -> (r: ClientReference)
    requires
        old(counter)@ < usize::MAX,
    ensures
        r.id@ == module_id@,
        r.mount_id@ == mount_id_of(old(counter)@),
        final(counter)@ == old(counter)@ + 1,
        r.props == props,
        r.chunk_url@ == chunk_url@,
        r.export_name@ == "default"@,
{
    let mount_id = generate_mount_id(counter);
    ClientReference {
        id: owned(module_id),
        mount_id,
        props,
        chunk_url: owned(chunk_url),
        export_name: owned("default"),
    }
}

// ---------------------------------------------------------------------------
// The hydration script

/// The bootstrap script around the route data, the client references and
/// the build identifier (the first two as JSON text).
pub open spec fn hydration_script_of(data_json: Seq<char>, refs_json: Seq<char>, build_id: Seq<char>) -> Seq<char> {
    SCRIPT_HEAD@ + data_json + SCRIPT_REFS@ + refs_json + SCRIPT_BUILD@ + build_id + SCRIPT_TAIL@
}

/// The script up to the route data.
pub const SCRIPT_HEAD: &'static str = r#"
<script>
    window.__VISTA_RSC_DATA__ = "#;

/// Between the route data and the client references.
pub const SCRIPT_REFS: &'static str = r#";
    window.__VISTA_CLIENT_REFERENCES__ = "#;

/// Between the client references and the build identifier.
pub const SCRIPT_BUILD: &'static str = r#";
    window.__VISTA_BUILD_ID__ = ""#;

/// After the build identifier: the module that imports each referenced
/// chunk, resolves its export, rebuilds its props and hydrates it at its
/// anchor, logging a failure of one component without stopping the rest.
pub const SCRIPT_TAIL: &'static str = r#"";
</script>
<script type="module">
    const refs = window.__VISTA_CLIENT_REFERENCES__;
    
    async function hydrateAll() {
        for (const ref of refs) {
            try {
                const mod = await import(ref.chunk_url);
                const Comp = mod[ref.export_name] || mod.default;
                const el = document.getElementById(ref.mount_id);
                if (el && Comp) {
                    const { hydrateRoot } = await import('react-dom/client');
                    const React = await import('react');
                    const props = deserializeProps(ref.props);
                    hydrateRoot(el, React.createElement(Comp, props));
                }
            } catch (e) {
                console.error('[Vista RSC] Hydration error:', ref.id, e);
            }
        }
    }
    
    function deserializeProps(props) {
        const result = {};
        for (const [k, v] of Object.entries(props)) {
            result[k] = deserializeValue(v);
        }
        return result;
    }
    
    function deserializeValue(v) {
        if (!v || typeof v !== 'object') return v;
        switch (v.type) {
            case 'Null': return null;
            case 'Undefined': return undefined;
            case 'Boolean': return v.value;
            case 'Number': return v.value;
            case 'String': return v.value;
            case 'Date': return new Date(v.value);
            case 'Array': return v.value.map(deserializeValue);
            case 'Object': return deserializeProps(v.value);
            default: return v.value;
        }
    }
    
    if (document.readyState === 'loading') {
        document.addEventListener('DOMContentLoaded', hydrateAll);
    } else {
        hydrateAll();
    }
</script>
"#;

/// The hydration bootstrap script: it embeds the route data and the client
/// references, given as JSON text, and the build identifier, then hydrates
/// each referenced component.
pub fn generate_hydration_script(data_json: &str, refs_json: &str, build_id: &str) -> (r: String)
    ensures
        r@ == hydration_script_of(data_json@, refs_json@, build_id@),
{
    let mut r = owned(SCRIPT_HEAD);
    push_str(&mut r, data_json);
    push_str(&mut r, SCRIPT_REFS);
    push_str(&mut r, refs_json);
    push_str(&mut r, SCRIPT_BUILD);
    push_str(&mut r, build_id);
    push_str(&mut r, SCRIPT_TAIL);
    r
}

} // verus!
