//! Entries kept under byte-string keys, and the building of such keys.
use vstd::prelude::*;
use crate::encoder::string_bytes;
use crate::text::bytes_eq;

verus! {

/// Where the entry of `key` stands, if anywhere.
pub fn find_key<V>(entries: &Vec<(Vec<u8>, V)>, key: &Vec<u8>) -> (r: Option<usize>)
    ensures
        r matches Some(i) ==> i < entries@.len() && entries@[i as int].0@ == key@,
        r is None ==> forall|j: int| 0 <= j < entries@.len() ==> entries@[j].0@ != key@,
{
    let mut i: usize = 0;
    while i < entries.len()
        invariant
            i <= entries@.len(),
            forall|j: int| 0 <= j < i ==> entries@[j].0@ != key@,
        decreases entries@.len() - i,
    {
        if bytes_eq(entries[i].0.as_slice(), key.as_slice()) {
            return Some(i);
        }
        i = i + 1;
    }
    None
}

/// The bytes of `type-name`, as `format!("{}-{}", ..)` writes them.
pub fn key_bytes(m_type: &String, separator: u8, name: &String) -> (r: Vec<u8>)
    ensures
        r@ == string_bytes(*m_type) + seq![separator] + string_bytes(*name),
{
    let mut key: Vec<u8> = Vec::new();
    append_bytes(&mut key, m_type.as_str().as_bytes());
    key.push(separator);
    append_bytes(&mut key, name.as_str().as_bytes());
    assert(key@ =~= string_bytes(*m_type) + seq![separator] + string_bytes(*name));
    key
}

/// Appends `src` to `buf`.
pub fn append_bytes(buf: &mut Vec<u8>, src: &[u8])
    ensures
        final(buf)@ == old(buf)@ + src@,
{
    let mut i: usize = 0;
    while i < src.len()
        invariant
            i <= src@.len(),
            buf@ == old(buf)@ + src@.take(i as int),
        decreases src@.len() - i,
    {
        buf.push(src[i]);
        i = i + 1;
        assert(buf@ =~= old(buf)@ + src@.take(i as int));
    }
    assert(src@.take(src@.len() as int) =~= src@);
}

} // verus!
