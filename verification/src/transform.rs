//! Inputs to the transform pipelines: Base64 payloads, bare or in a data URL.
use vstd::prelude::*;
use vstd::string::*;
use crate::errors::TransformError;
use crate::tensor::{base64_decode, base64_decoding};
use crate::text::{seq_starts_with, str_starts_with};

verus! {

/// The characters of `s` before its first `c` (all of `s` without one).
pub open spec fn before_char(s: Seq<char>, c: char) -> Seq<char>
    decreases s.len(),
{
    if s.len() == 0 {
        s
    } else if s[0] == c {
        Seq::empty()
    } else {
        seq![s[0]] + before_char(s.drop_first(), c)
    }
}

/// The Base64 text of an input: for a data URL (`data:...`), the part
/// between its first and second comma, none without a comma; otherwise the
/// whole text.
pub open spec fn base64_payload(data: Seq<char>) -> Option<Seq<char>> {
    if seq_starts_with(data, "data:"@) {
        if data.contains(',') {
            let rest = data.subrange(before_char(data, ',').len() as int + 1, data.len() as int);
            Some(before_char(rest, ','))
        } else {
            None
        }
    } else {
        Some(data)
    }
}

proof fn lemma_before_char_prefix(s: Seq<char>, c: char, k: int)
    requires
        0 <= k <= s.len(),
        forall|j: int| 0 <= j < k ==> s[j] != c,
        k == s.len() || s[k] == c,
    ensures
        before_char(s, c) == s.subrange(0, k),
    decreases s.len(),
{
    if s.len() == 0 {
        assert(s.subrange(0, k) =~= s);
    } else if k == 0 {
        assert(s.subrange(0, 0) =~= Seq::<char>::empty());
    } else {
        lemma_before_char_prefix(s.drop_first(), c, k - 1);
        assert(s.subrange(0, k) =~= seq![s[0]] + s.drop_first().subrange(0, k - 1));
    }
}

/// The first position at or after `from` that holds `c`, or the length.
fn find_char_from(s: &str, c: char, from: usize) -> (k: usize)
    requires
        from <= s@.len(),
    ensures
        from <= k <= s@.len(),
        forall|j: int| from <= j < k ==> s@[j] != c,
        k == s@.len() || s@[k as int] == c,
{
    let n = s.unicode_len();
    let mut k: usize = from;
    while k < n && s.get_char(k) != c
        invariant
            n == s@.len(),
            from <= k <= n,
            forall|j: int| from <= j < k ==> s@[j] != c,
        decreases n - k,
    {
        k = k + 1;
    }
    k
}

fn chars_between(s: &str, start: usize, end: usize) -> (r: String)
    requires
        start <= end <= s@.len(),
    ensures
        r@ == s@.subrange(start as int, end as int),
{
    let mut r = String::new();
    let mut i: usize = start;
    while i < end
        invariant
            start <= i <= end,
            end <= s@.len(),
            r@ == s@.subrange(start as int, i as int),
        decreases end - i,
    {
        crate::text::push_char(&mut r, s.get_char(i));
        proof {
            assert(s@.subrange(start as int, i + 1) == s@.subrange(start as int, i as int).push(s@[i as int]));
        }
        i = i + 1;
    }
    r
}

/// Decodes a Base64 input, bare or in a data URL; text that is not Base64,
/// or a data URL without a payload, is refused.
pub fn base64_input_decode(data: &str) -> (r: Result<Vec<u8>, TransformError>)
    ensures
        match base64_payload(data@) {
            Some(p) => match base64_decoding(p) {
                Some(b) => r matches Ok(v) && v@ == b,
                None => r matches Err(TransformError::InvalidBase64),
            },
            None => r matches Err(TransformError::InvalidBase64),
        },
{
    proof { reveal_strlit("data:"); }
    if str_starts_with(data, "data:") {
        let n = data.unicode_len();
        let first = find_char_from(data, ',', 0);
        proof { lemma_before_char_prefix(data@, ',', first as int); }
        if first == n {
            proof {
                assert(!data@.contains(',')) by {
                    if data@.contains(',') {
                        let j = choose|j: int| 0 <= j < data@.len() && data@[j] == ',';
                        assert(data@[j] != ',');
                    }
                }
            }
            return Err(TransformError::InvalidBase64);
        }
        let second = find_char_from(data, ',', first + 1);
        proof {
            let rest = data@.subrange(first + 1, data@.len() as int);
            assert(data@.contains(','));
            assert forall|j: int| 0 <= j < second - (first + 1) implies rest[j] != ',' by {
                assert(rest[j] == data@[first + 1 + j]);
            }
            if second < n {
                assert(rest[second - (first + 1)] == data@[second as int]);
            }
            lemma_before_char_prefix(rest, ',', second - (first + 1));
            assert(rest.subrange(0, second - (first + 1)) =~= data@.subrange(first + 1, second as int));
        }
        let payload = chars_between(data, first + 1, second);
        match base64_decode(payload.as_str()) {
            Some(b) => Ok(b),
            None => Err(TransformError::InvalidBase64),
        }
    } else {
        match base64_decode(data) {
            Some(b) => Ok(b),
            None => Err(TransformError::InvalidBase64),
        }
    }
}

} // verus!
