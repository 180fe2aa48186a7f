use vstd::prelude::*;

verus! {

/// A decoded YAML document, as plain values: the generic tree that chart
/// documents are read from. Keys and values of a mapping keep their order.
#[derive(Debug)]
pub enum Yaml {
    Null,
    Bool(bool),
    /// An integer that fits in `i64`.
    Int(i64),
    Text(String),
    Sequence(Vec<Yaml>),
    Mapping(Vec<(Yaml, Yaml)>),
    /// Anything else: a float, an integer out of range, a tagged value.
    Other,
}

#[verifier::external_type_specification]
#[verifier::external_body]
pub struct ExYamlValue(serde_yaml::Value);

/// What serde_yaml reads from a text: the tree, or the parser's message.
pub uninterp spec fn yaml_of(text: Seq<char>) -> Result<Yaml, String>;

/// Relies on serde_yaml::from_str into a serde_yaml::Value, which depends on
/// the text alone; on failure, the message of the serde_yaml::Error.
#[verifier::external_body]
pub(crate) fn load_yaml(text: &str) -> (r: Result<Yaml, String>)
    ensures
        r == yaml_of(text@),
{
    match serde_yaml::from_str::<serde_yaml::Value>(text) {
        Ok(v) => Ok(tree_of_value(&v)),
        Err(e) => Err(e.to_string()),
    }
}

/// Relies on the variants of serde_yaml::Value, read one for one into a `Yaml`
/// (serde_yaml::Number::as_i64 for numbers).
#[verifier::external_body]
fn tree_of_value(v: &serde_yaml::Value) -> Yaml {
    match v {
        serde_yaml::Value::Null => Yaml::Null,
        serde_yaml::Value::Bool(b) => Yaml::Bool(*b),
        serde_yaml::Value::Number(n) => n.as_i64().map_or(Yaml::Other, Yaml::Int),
        serde_yaml::Value::String(s) => Yaml::Text(s.clone()),
        serde_yaml::Value::Sequence(s) => Yaml::Sequence(s.iter().map(tree_of_value).collect()),
        serde_yaml::Value::Mapping(m) => Yaml::Mapping(m.iter().map(|(k, v)| (tree_of_value(k), tree_of_value(v))).collect()),
        serde_yaml::Value::Tagged(_) => Yaml::Other,
    }
}

/// The value stored under a text key: the first entry whose key is that text.
pub open spec fn lookup(entries: Seq<(Yaml, Yaml)>, key: Seq<char>) -> Option<Yaml>
    decreases entries.len(),
{
    if entries.len() == 0 {
        None
    } else if entries[0].0 is Text && entries[0].0->Text_0@ == key {
        Some(entries[0].1)
    } else {
        lookup(entries.drop_first(), key)
    }
}

/// The value under `key` in a mapping; `None` for a key that is absent or a
/// value that is no mapping.
pub open spec fn field_of(doc: Yaml, key: Seq<char>) -> Option<Yaml> {
    match doc {
        Yaml::Mapping(entries) => lookup(entries@, key),
        _ => None,
    }
}

impl Yaml {
    /// The entry stored under a text key of a mapping.
    pub fn field(&self, key: &str) -> (r: Option<&Yaml>)
        ensures
            r is Some == field_of(*self, key@) is Some,
            r is Some ==> *r->0 == field_of(*self, key@)->0,
    {
        match self {
            Yaml::Mapping(entries) => {
                let mut i: usize = 0;
                assert(entries@.skip(0) =~= entries@);
                while i < entries.len()
                    invariant
                        i <= entries@.len(),
                        field_of(*self, key@) == lookup(entries@, key@),
                        lookup(entries@, key@) == lookup(entries@.skip(i as int), key@),
                    decreases entries@.len() - i,
                {
                    proof {
                        assert(entries@.skip(i as int).drop_first() =~= entries@.skip(i + 1));
                        assert(entries@.skip(i as int)[0] == entries@[i as int]);
                    }
                    let entry = &entries[i];
                    if let Yaml::Text(s) = &entry.0 {
                        if crate::chord::text_is(s.as_str(), key) {
                            return Some(&entry.1);
                        }
                    }
                    i = i + 1;
                }
                None
            },
            _ => None,
        }
    }
}

} // verus!
