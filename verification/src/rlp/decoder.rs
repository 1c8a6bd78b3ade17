//! Decoding bytes into [`RLP`] values.
use vstd::prelude::*;
use crate::rlp::defines::{
    LONG_LIST_PREFIX_BASE, LONG_STRING_PREFIX_BASE, SHORT_LIST_PREFIX_BASE,
    SHORT_STRING_PREFIX_BASE, SINGLE_BYTE_MAX_VALUE,
};
use crate::rlp::model::{decode_list, decode_tree, header};
use crate::rlp::types::{read_be, EncodedRLP, RLPError, RlpTree, RLP};

verus! {

/// `Some(a + rest)` when `o` is `Some(rest)`, else `None`.
pub open spec fn prepend_trees(a: Seq<RlpTree>, o: Option<Seq<RlpTree>>) -> Option<Seq<RlpTree>> {
    match o {
        Some(rest) => Some(a + rest),
        None => None,
    }
}

/// The answer of the decoder to a malformed segment.
fn malformed_err() -> (r: (Result<RLP, RLPError>, usize))
    ensures
        r.0 matches Err(RLPError::RLPDecodingErrorMalformed),
        r.1 == 0,
{
    (Err(RLPError::RLPDecodingErrorMalformed), 0)
}

/// RLP Decoder
pub struct Decoder;

impl Decoder {
    /// Reads the header at `start` of the segment `start..end`: whether it
    /// opens a list, how many bytes the header takes, and how long the payload
    /// is.
    fn read_header(input: &Vec<u8>, start: usize, end: usize) -> (r: Option<(bool, usize, u64)>)
        requires
            start <= end <= input@.len(),
        ensures
            match header(input@.subrange(start as int, end as int)) {
                None => r is None,
                Some(h) => r matches Some(x) && x.0 == h.is_list && x.1 == h.hdr_len
                    && x.2 == h.payload_len,
            },
            r matches Some(x) ==> x.1 <= end - start,
    {
        let ghost s = input@.subrange(start as int, end as int);
        if start == end {
            return None;
        }
        assert(s[0] == input@[start as int]);
        let prefix = input[start];
        if prefix <= SINGLE_BYTE_MAX_VALUE {
            Some((false, 0, 1))
        } else if prefix <= LONG_STRING_PREFIX_BASE {
            Some((false, 1, (prefix - SHORT_STRING_PREFIX_BASE) as u64))
        } else if prefix < SHORT_LIST_PREFIX_BASE {
            let n = (prefix - LONG_STRING_PREFIX_BASE) as usize;
            if end - start < 1 + n {
                return None;
            }
            assert(s.subrange(1, 1 + n as int) =~= input@.subrange(start + 1, start + 1 + n));
            let l = read_be(input.as_slice(), start + 1, n);
            Some((false, 1 + n, l))
        } else if prefix <= LONG_LIST_PREFIX_BASE {
            Some((true, 1, (prefix - SHORT_LIST_PREFIX_BASE) as u64))
        } else {
            let n = (prefix - LONG_LIST_PREFIX_BASE) as usize;
            if end - start < 1 + n {
                return None;
            }
            assert(s.subrange(1, 1 + n as int) =~= input@.subrange(start + 1, start + 1 + n));
            let l = read_be(input.as_slice(), start + 1, n);
            Some((true, 1 + n, l))
        }
    }

    /// Decodes the segment `start..end` as exactly one element.  On success
    /// the second component is the length of the segment.
    fn decode_helper(input: &Vec<u8>, start: usize, end: usize) -> (r: (Result<RLP, RLPError>, usize))
        requires
            start <= end <= input@.len(),
        ensures
            match decode_tree(input@.subrange(start as int, end as int)) {
                Some(t) => r.0 matches Ok(x) && x@ == t && r.1 == end - start,
                None => r.0 matches Err(RLPError::RLPDecodingErrorMalformed) && r.1 == 0,
            },
        decreases end - start, 0nat,
    {
        let ghost s = input@.subrange(start as int, end as int);
        let hdr = Self::read_header(input, start, end);
        match hdr {
            None => malformed_err(),
            Some((is_list, hdr_len, payload_len)) => {
                let seg_len = end - start;
                if payload_len != (seg_len - hdr_len) as u64 {
                    return malformed_err();
                }
                if is_list {
                    if hdr_len == 0 {
                        return malformed_err();
                    }
                    assert(s.subrange(hdr_len as int, s.len() as int)
                        =~= input@.subrange(start + hdr_len, end as int));
                    match Self::decode_list_helper(input, start + hdr_len, end) {
                        None => malformed_err(),
                        Some(list) => (Ok(RLP::RLPList(list)), seg_len),
                    }
                } else {
                    let mut bytes: Vec<u8> = Vec::new();
                    let mut i = start + hdr_len;
                    while i < end
                        invariant
                            start + hdr_len <= i <= end <= input@.len(),
                            bytes@ =~= input@.subrange(start + hdr_len, i as int),
                        decreases end - i,
                    {
                        bytes.push(input[i]);
                        i = i + 1;
                    }
                    assert(s.subrange(hdr_len as int, s.len() as int) =~= bytes@);
                    (Ok(RLP::RLPItem(bytes)), seg_len)
                }
            },
        }
    }

    /// Decodes the segment `start..end` as a sequence of whole elements.
    fn decode_list_helper(input: &Vec<u8>, start: usize, end: usize) -> (r: Option<Vec<RLP>>)
        requires
            start <= end <= input@.len(),
        ensures
            match decode_list(input@.subrange(start as int, end as int)) {
                Some(ts) => r matches Some(v) && RLP::trees(v@) == ts,
                None => r is None,
            },
        decreases end - start, 1nat,
    {
        let mut result_list: Vec<RLP> = Vec::new();
        let mut cur_pos = start;
        assert(RLP::trees(result_list@) =~= Seq::<RlpTree>::empty());
        while cur_pos < end
            invariant
                start <= cur_pos <= end <= input@.len(),
                decode_list(input@.subrange(start as int, end as int)) == prepend_trees(
                    RLP::trees(result_list@),
                    decode_list(input@.subrange(cur_pos as int, end as int)),
                ),
            decreases end - cur_pos,
        {
            let ghost s = input@.subrange(cur_pos as int, end as int);
            let hdr = Self::read_header(input, cur_pos, end);
            match hdr {
                None => {
                    return None;
                },
                Some((_, hdr_len, payload_len)) => {
                    if payload_len > (end - cur_pos - hdr_len) as u64 || hdr_len + payload_len as usize == 0 {
                        return None;
                    }
                    let seg_len = hdr_len + payload_len as usize;
                    assert(s.subrange(0, seg_len as int) =~= input@.subrange(cur_pos as int, cur_pos + seg_len));
                    assert(s.subrange(seg_len as int, s.len() as int) =~= input@.subrange(cur_pos + seg_len, end as int));
                    let (r_rlp, _) = Self::decode_helper(input, cur_pos, cur_pos + seg_len);
                    match r_rlp {
                        Err(_) => {
                            return None;
                        },
                        Ok(rlp) => {
                            let ghost before = result_list@;
                            result_list.push(rlp);
                            assert(result_list@.subrange(0, result_list@.len() - 1) =~= before);
                            assert(RLP::trees(result_list@) == RLP::trees(before).push(rlp@));
                            assert(RLP::trees(before).push(rlp@) + Seq::empty() =~= RLP::trees(before).push(rlp@));
                            proof {
                                let tail = decode_list(input@.subrange(cur_pos + seg_len, end as int));
                                match tail {
                                    Some(rest) => {
                                        assert(RLP::trees(before) + (seq![rlp@] + rest)
                                            =~= RLP::trees(before).push(rlp@) + rest);
                                    },
                                    None => {},
                                }
                            }
                            cur_pos = cur_pos + seg_len;
                        },
                    }
                },
            }
        }
        assert(input@.subrange(cur_pos as int, end as int) =~= Seq::<u8>::empty());
        assert(RLP::trees(result_list@) + Seq::empty() =~= RLP::trees(result_list@));
        Some(result_list)
    }

    /// Decode bytes array to RLP, return `None` if failed.
    ///
    /// The bytes must hold exactly one element: a byte string or a list.
    pub fn decode(input: &EncodedRLP) -> (r: Option<RLP>)
        ensures
            match decode_tree(input@) {
                Some(t) => r matches Some(x) && x@ == t,
                None => r is None,
            },
    {
        assert(input@.subrange(0, input@.len() as int) =~= input@);
        let (r, _) = Decoder::decode_helper(input, 0, input.len());
        match r {
            Ok(r) => Some(r),
            Err(_) => None,
        }
    }
}

} // verus!
