use vstd::prelude::*;

use crate::types::GenericValue;

verus! {

/// The byte may stand in the name part of a DID: an ASCII digit or lower-case letter.
pub open spec fn is_did_name_byte(c: u8) -> bool {
    (48 <= c <= 57) || (97 <= c <= 122)
}

/// A well-formed DID in UTF-8: a name of 1 to 50 digits and lower-case
/// ASCII letters, followed by the suffix `.icp`.
pub open spec fn valid_did_bytes(b: Seq<u8>) -> bool {
    &&& 5 <= b.len() <= 54
    &&& forall|i: int| 0 <= i < b.len() - 4 ==> #[trigger] is_did_name_byte(b[i])
    &&& b[b.len() - 4] == 46
    &&& b[b.len() - 3] == 105
    &&& b[b.len() - 2] == 99
    &&& b[b.len() - 1] == 112
}

/// A well-formed DID, as text.
pub open spec fn valid_did(s: Seq<char>) -> bool {
    valid_did_bytes(vstd::utf8::encode_utf8(s))
}

/// Whether the bytes form a well-formed DID.
pub fn did_bytes_well_formed(b: &[u8]) -> (r: bool)
    ensures
        r == valid_did_bytes(b@),
{
    let n = b.len();
    if n < 5 || n > 54 {
        return false;
    }
    let mut i: usize = 0;
    while i < n - 4
        invariant
            n == b@.len(),
            5 <= n <= 54,
            i <= n - 4,
            forall|j: int| 0 <= j < i ==> #[trigger] is_did_name_byte(b@[j]),
        decreases n - 4 - i,
    {
        let c = b[i];
        if (c < 48 || c > 122) || (c > 57 && c < 97) {
            assert(!is_did_name_byte(b@[i as int]));
            return false;
        }
        i = i + 1;
    }
    if b[n - 4] != 46 || b[n - 3] != 105 || b[n - 2] != 99 || b[n - 1] != 112 {
        return false;
    }
    true
}

/// The property key that names a token's DID.
pub open spec fn did_key() -> Seq<char> {
    seq!['d', 'i', 'd']
}

/// Whether a property key names the DID.
pub fn is_did_key(k: &String) -> (r: bool)
    ensures
        r == (k@ == did_key()),
{
    let s = k.as_str();
    let n = s.unicode_len();
    if n != 3 {
        return false;
    }
    let a = s.get_char(0);
    let b = s.get_char(1);
    let c = s.get_char(2);
    let r = a == 'd' && b == 'i' && c == 'd';
    proof {
        if r {
            assert(s@ =~= did_key());
        }
    }
    r
}

/// The property is a textual value under the key `did`.
pub open spec fn is_did_property(p: (String, GenericValue)) -> bool {
    p.0@ == did_key() && p.1 is TextContent
}

/// The DID text that a property holds, if it is a DID property.
pub open spec fn did_text(p: (String, GenericValue)) -> String {
    match p.1 {
        GenericValue::TextContent(s) => s,
        _ => arbitrary(),
    }
}

/// The DID that a list of properties names: the text of the last property
/// under the key `did` whose value is text, if there is one.
pub open spec fn did_of_properties(props: Seq<(String, GenericValue)>) -> Option<String>
    decreases props.len(),
{
    if props.len() == 0 {
        None
    } else if is_did_property(props.last()) {
        Some(did_text(props.last()))
    } else {
        did_of_properties(props.drop_last())
    }
}

/// The DID that a list of properties names is the text of one of its DID properties.
pub proof fn lemma_did_of_properties_is_listed(props: Seq<(String, GenericValue)>)
    ensures
        did_of_properties(props) is Some ==> exists|i: int|
            0 <= i < props.len() && #[trigger] is_did_property(props[i]) && did_text(props[i])
                == did_of_properties(props)->0,
    decreases props.len(),
{
    if props.len() > 0 && !is_did_property(props.last()) {
        lemma_did_of_properties_is_listed(props.drop_last());
        if did_of_properties(props) is Some {
            let i = choose|i: int|
                0 <= i < props.drop_last().len() && #[trigger] is_did_property(props.drop_last()[i])
                    && did_text(props.drop_last()[i]) == did_of_properties(props.drop_last())->0;
            assert(props[i] == props.drop_last()[i]);
        }
    } else if props.len() > 0 {
        assert(is_did_property(props[props.len() - 1]));
    }
}

/// Every DID property in the list holds a well-formed DID.
pub open spec fn did_properties_well_formed(props: Seq<(String, GenericValue)>) -> bool {
    forall|i: int|
        0 <= i < props.len() && #[trigger] is_did_property(props[i]) ==> valid_did(did_text(props[i])@)
}

/// Whether every DID property in the list holds a well-formed DID.
pub fn did_properties_checked(props: &Vec<(String, GenericValue)>) -> (r: bool)
    ensures
        r == did_properties_well_formed(props@),
{
    let n = props.len();
    let mut i: usize = 0;
    while i < n
        invariant
            n == props@.len(),
            i <= n,
            forall|j: int|
                0 <= j < i && #[trigger] is_did_property(props@[j]) ==> valid_did(
                    did_text(props@[j])@,
                ),
        decreases n - i,
    {
        let (key, value) = &props[i];
        if is_did_key(key) {
            if let GenericValue::TextContent(text) = value {
                let bytes = text.as_str().as_bytes();
                if !did_bytes_well_formed(bytes) {
                    assert(is_did_property(props@[i as int]));
                    return false;
                }
            }
        }
        i = i + 1;
    }
    true
}

/// The DID that the properties name, as `did_of_properties` says.
pub fn chosen_did(props: &Vec<(String, GenericValue)>) -> (r: Option<String>)
    ensures
        r == did_of_properties(props@),
{
    let n = props.len();
    let mut did: Option<String> = None;
    let mut i: usize = 0;
    while i < n
        invariant
            n == props@.len(),
            i <= n,
            did == did_of_properties(props@.take(i as int)),
        decreases n - i,
    {
        proof {
            assert(props@.take(i + 1).drop_last() =~= props@.take(i as int));
            assert(props@.take(i + 1).last() == props@[i as int]);
        }
        let (key, value) = &props[i];
        if is_did_key(key) {
            if let GenericValue::TextContent(text) = value {
                did = Some(text.clone());
            }
        }
        i = i + 1;
    }
    assert(props@.take(n as int) =~= props@);
    did
}

} // verus!
