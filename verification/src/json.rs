use vstd::prelude::*;

verus! {

/// What reading the member `key` out of the JSON document `s` yields: the
/// member's text when `s` parses as JSON whose top level is an object
/// holding `key` as a JSON string, nothing otherwise. A function of the two
/// texts alone.
pub uninterp spec fn json_str_field_of(s: Seq<char>, key: Seq<char>) -> Option<Seq<char>>;

/// Relies on serde_json 1 (`from_str::<Value>`, `Value::get`,
/// `Value::as_str`): one composite read, since only its end-to-end result
/// can be stated over plain values — parsing is deterministic in the
/// characters, so the whole read is a function of `s` and `key`.
#[verifier::external_body]
pub(crate) fn json_string_field(s: &str, key: &str) -> (r: Option<String>)
    ensures
        r is Some <==> json_str_field_of(s@, key@) is Some,
        r matches Some(v) ==> Some(v@) == json_str_field_of(s@, key@),
{
    let val: serde_json::Value = serde_json::from_str(s).ok()?;
    Some(val.get(key)?.as_str()?.to_owned())
}

/// What decoding the schedule response `s` yields: for each element of its
/// top-level `kbList` array, the members kcmc, xm, cdmc, jcs, zcd and xqj
/// in that order, each present exactly when the element holds it as a JSON
/// string; nothing when `s` is not JSON, or `kbList` is missing or not an
/// array. A function of the text alone.
pub uninterp spec fn kb_fields_of(s: Seq<char>) -> Option<Seq<Seq<Option<Seq<char>>>>>;

/// Relies on serde_json 1 (`from_str::<Value>`, `Value::get`,
/// `Value::as_array`, `Value::as_str`): one composite read, since only its
/// end-to-end result can be stated over plain values — each inner list
/// holds the six members in order, so every element of the result has
/// exactly six slots.
#[verifier::external_body]
pub(crate) fn kb_list_fields(s: &str) -> (r: Option<Vec<Vec<Option<String>>>>)
    ensures
        r is Some <==> kb_fields_of(s@) is Some,
        r matches Some(v) ==> Some(v.deep_view()) == kb_fields_of(s@),
        r matches Some(v) ==> forall|i: int| 0 <= i < v@.len() ==> (#[trigger] v@[i])@.len() == 6,
{
    let val: serde_json::Value = serde_json::from_str(s).ok()?;
    let arr = val.get("kbList")?.as_array()?;
    Some(
        arr.iter()
            .map(|el| {
                ["kcmc", "xm", "cdmc", "jcs", "zcd", "xqj"]
                    .iter()
                    .map(|key| el.get(*key).and_then(|f| f.as_str()).map(String::from))
                    .collect()
            })
            .collect(),
    )
}

} // verus!
