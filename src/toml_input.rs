use vstd::prelude::*;
use crate::error::RdbError;
use crate::value as model;

verus! {

#[verifier::external_type_specification]
#[verifier::external_body]
#[verifier::reject_recursive_types(K)]
#[verifier::reject_recursive_types(V)]
pub struct ExTomlMap<K, V>(toml::map::Map<K, V>);

#[verifier::external_type_specification]
#[verifier::external_body]
pub struct ExTomlValue(toml::Value);

#[verifier::external_type_specification]
#[verifier::external_body]
pub struct ExTomlError(toml::de::Error);

/// The top-level entries of the TOML document `text`, in declaration order,
/// each key with the model of its value; `None` when `text` is not TOML.
pub uninterp spec fn toml_document(text: Seq<char>) -> Option<Seq<(Seq<char>, model::ValueModel)>>;

/// The entries a TOML table holds, in declaration order, each key with the
/// model of its value.
pub uninterp spec fn table_model(t: toml::Table) -> Seq<(Seq<char>, model::ValueModel)>;

/// The model of a TOML value: its text, or the texts of its members.
pub uninterp spec fn value_model(v: toml::Value) -> model::ValueModel;

/// Relies on `toml::Table`'s `FromStr` impl (`toml::from_str`): it parses
/// `text` as a TOML document, fails exactly on text that is not one, and the
/// table it gives holds the document's top-level entries (the
/// `preserve_order` feature keeps them in declaration order).
#[verifier::external_body]
fn parse_table(text: &str) -> (r: Result<toml::Table, toml::de::Error>)
    ensures
        r is Ok <==> toml_document(text@) is Some,
        r matches Ok(t) ==> toml_document(text@) == Some(table_model(t)),
{
    text.parse::<toml::Table>()
}

/// Relies on `toml::map::Map`'s `Clone` and `IntoIterator` impls: the entries
/// of a table, each key with its value, in the order in which they were
/// declared.
#[verifier::external_body]
fn table_entries(table: &toml::Table) -> (r: Vec<(String, toml::Value)>)
    ensures
        r@.len() == table_model(*table).len(),
        forall|i: int| 0 <= i < r@.len() ==> (#[trigger] r@[i]).0@ == table_model(*table)[i].0
            && value_model(r@[i].1) == table_model(*table)[i].1,
{
    table.clone().into_iter().collect()
}

/// The variant of a TOML value, with the scalars already in the library's form.
pub enum TomlShape {
    Scalar(model::Scalar),
    Array(Vec<toml::Value>),
    Table(toml::Table),
}

/// Relies on the variants of `toml::Value`, and on the `Display` impls of
/// `f64` and `toml::value::Datetime` for the text of floats and datetimes.
#[verifier::external_body]
fn toml_shape(value: &toml::Value) -> (r: TomlShape)
    ensures
        r matches TomlShape::Scalar(s) ==> value_model(*value) == model::ValueModel::Scalar(model::scalar_text(s)),
        r matches TomlShape::Array(items) ==> value_model(*value) == model::ValueModel::List(
            items@.map_values(|e: toml::Value| model::nested_text(value_model(e))),
        ),
        r matches TomlShape::Table(t) ==> value_model(*value) == model::ValueModel::Table(
            table_model(t).map_values(|f: (Seq<char>, model::ValueModel)| (f.0, model::nested_text(f.1))),
        ),
{
    match value {
        toml::Value::String(s) => TomlShape::Scalar(model::Scalar::Text(s.clone())),
        toml::Value::Integer(i) => TomlShape::Scalar(model::Scalar::Integer(*i)),
        toml::Value::Float(f) => TomlShape::Scalar(model::Scalar::Float(f.to_string())),
        toml::Value::Boolean(b) => TomlShape::Scalar(model::Scalar::Boolean(*b)),
        toml::Value::Datetime(d) => TomlShape::Scalar(model::Scalar::Datetime(d.to_string())),
        toml::Value::Array(a) => TomlShape::Array(a.clone()),
        toml::Value::Table(t) => TomlShape::Table(t.clone()),
    }
}

/// A value nested inside an array or a table. Only its scalar form is ever
/// read, so a nested array or table is kept as an empty one.
fn nested_value(value: &toml::Value) -> (r: model::RecordValue)
    ensures
        model::value_text(r) == model::nested_text(value_model(*value)),
{
    match toml_shape(value) {
        TomlShape::Scalar(s) => model::RecordValue::Scalar(s),
        TomlShape::Array(_) => model::RecordValue::List(Vec::new()),
        TomlShape::Table(_) => model::RecordValue::Table(Vec::new()),
    }
}

/// A top-level value: a scalar, or an array or table of nested values.
fn top_value(value: &toml::Value) -> (r: model::RecordValue)
    ensures
        r@ == value_model(*value),
{
    match toml_shape(value) {
        TomlShape::Scalar(s) => model::RecordValue::Scalar(s),
        TomlShape::Array(items) => {
            let mut out: Vec<model::RecordValue> = Vec::new();
            let mut i: usize = 0;
            let ghost want = items@.map_values(|e: toml::Value| model::nested_text(value_model(e)));
            while i < items.len()
                invariant
                    i <= items@.len(),
                    out@.len() == i,
                    want == items@.map_values(|e: toml::Value| model::nested_text(value_model(e))),
                    out@.map_values(|v: model::RecordValue| model::value_text(v)) =~= want.subrange(0, i as int),
                decreases items@.len() - i,
            {
                let ghost prev = out@;
                let v = nested_value(&items[i]);
                out.push(v);
                proof {
                    assert(want[i as int] == model::nested_text(value_model(items@[i as int])));
                    assert forall|j: int| 0 <= j < i implies #[trigger] out@[j] == prev[j]
                        && model::value_text(prev[j]) == want[j] by {
                        assert(prev.map_values(|v: model::RecordValue| model::value_text(v))[j] == want.subrange(0, i as int)[j]);
                    }
                }
                i = i + 1;
                assert(out@.map_values(|v: model::RecordValue| model::value_text(v)) =~= want.subrange(0, i as int));
            }
            assert(want.subrange(0, i as int) =~= want);
            model::RecordValue::List(out)
        },
        TomlShape::Table(table) => {
            let entries = table_entries(&table);
            let mut out: Vec<(String, model::RecordValue)> = Vec::new();
            let mut i: usize = 0;
            let ghost want = table_model(table).map_values(
                |f: (Seq<char>, model::ValueModel)| (f.0, model::nested_text(f.1)),
            );
            while i < entries.len()
                invariant
                    i <= entries@.len(),
                    out@.len() == i,
                    entries@.len() == table_model(table).len(),
                    forall|j: int| 0 <= j < entries@.len() ==> (#[trigger] entries@[j]).0@ == table_model(table)[j].0
                        && value_model(entries@[j].1) == table_model(table)[j].1,
                    want == table_model(table).map_values(
                        |f: (Seq<char>, model::ValueModel)| (f.0, model::nested_text(f.1)),
                    ),
                    out@.map_values(|f: (String, model::RecordValue)| (f.0@, model::value_text(f.1)))
                        =~= want.subrange(0, i as int),
                decreases entries@.len() - i,
            {
                let entry = &entries[i];
                let k = entry.0.clone();
                let v = nested_value(&entry.1);
                assert(entries@[i as int] == *entry);
                let ghost prev = out@;
                out.push((k, v));
                proof {
                    assert(want[i as int] == (table_model(table)[i as int].0, model::nested_text(table_model(table)[i as int].1)));
                    assert forall|j: int| 0 <= j < i implies #[trigger] out@[j] == prev[j]
                        && (prev[j].0@, model::value_text(prev[j].1)) == want[j] by {
                        assert(prev.map_values(|f: (String, model::RecordValue)| (f.0@, model::value_text(f.1)))[j]
                            == want.subrange(0, i as int)[j]);
                    }
                }
                i = i + 1;
                assert(out@.map_values(|f: (String, model::RecordValue)| (f.0@, model::value_text(f.1)))
                    =~= want.subrange(0, i as int));
            }
            assert(want.subrange(0, i as int) =~= want);
            model::RecordValue::Table(out)
        },
    }
}

/// Parses one fragment of input into its first top-level key and that key's
/// value. Fails with `MalformedFragment` exactly when the text is not valid
/// TOML, and with `InvalidKeyedRecord` exactly when it holds no key.
pub fn parse_fragment(text: &str) -> (r: Result<(String, model::RecordValue), RdbError>)
    ensures
        match toml_document(text@) {
            None => r == Err::<(String, model::RecordValue), RdbError>(RdbError::MalformedFragment),
            Some(entries) => if entries.len() == 0 {
                r == Err::<(String, model::RecordValue), RdbError>(RdbError::InvalidKeyedRecord)
            } else {
                r matches Ok((k, v)) && k@ == entries[0].0 && v@ == entries[0].1
            },
        },
{
    let table = match parse_table(text) {
        Ok(t) => t,
        Err(_) => return Err(RdbError::MalformedFragment),
    };
    let entries = table_entries(&table);
    if entries.len() == 0 {
        return Err(RdbError::InvalidKeyedRecord);
    }
    let first = &entries[0];
    assert(entries@[0] == *first);
    Ok((first.0.clone(), top_value(&first.1)))
}

} // verus!
