//! The local IP address of the machine, read from the text that `ifconfig`
//! prints.
use vstd::prelude::*;
use vstd::utf8::encode_utf8;

verus! {

/// The hosts that the pattern `(?m)^.*inet (addr:)?(([0-9]*\.){3}[0-9]*).*$`
/// of `regex` captures in its second group, one per match, in order.
pub uninterp spec fn inet_hosts(text: Seq<char>) -> Seq<Seq<char>>;

/// Runs `Regex::captures_iter` of the `ifconfig` pattern over the text and
/// takes the second group of each match (the pattern always sets it): the
/// hosts that the text gives, in order.
#[verifier::external_body]
fn regex_inet_hosts(text: &str) -> (r: Vec<String>)
    ensures
        Seq::new(r@.len(), |i: int| r@[i]@) == inet_hosts(text@),
{
    let re = regex::Regex::new(r#"(?m)^.*inet (addr:)?(([0-9]*\.){3}[0-9]*).*$"#).unwrap();
    re.captures_iter(text).map(|cap| cap[2].to_string()).collect()
}

/// The value of decimal digits (ASCII), most significant first.
pub open spec fn decimal(d: Seq<u8>) -> nat
    decreases d.len(),
{
    if d.len() == 0 {
        0
    } else {
        decimal(d.drop_last()) * 10 + (d.last() - 48) as nat
    }
}

/// An ASCII decimal digit.
pub open spec fn is_digit(c: u8) -> bool {
    48 <= c <= 57
}

/// An octet of a dotted-quad address: one to three decimal digits, with no
/// leading zero, of value at most 255.
pub open spec fn octet_text(d: Seq<u8>) -> bool {
    &&& 1 <= d.len() <= 3
    &&& forall|i: int| 0 <= i < d.len() ==> is_digit(#[trigger] d[i])
    &&& (d.len() > 1 ==> d[0] != 48)
    &&& decimal(d) <= 255
}

/// The pieces of the text between its dots (`.` is 46), in order.
pub open spec fn dot_fields(b: Seq<u8>) -> Seq<Seq<u8>>
    decreases b.len(),
{
    if b.len() == 0 {
        seq![Seq::empty()]
    } else {
        let f = dot_fields(b.drop_last());
        if b.last() == 46 {
            f.push(Seq::empty())
        } else {
            f.update(f.len() - 1, f.last().push(b.last()))
        }
    }
}

/// The text is an IPv4 address in dot-decimal notation: four octets
/// separated by dots.
pub open spec fn dotted_quad(b: Seq<u8>) -> bool {
    &&& dot_fields(b).len() == 4
    &&& forall|i: int| 0 <= i < 4 ==> octet_text(#[trigger] dot_fields(b)[i])
}

/// A host that stands for the machine on the network: an IPv4 address
/// other than the loopback one.
pub open spec fn local_host(h: Seq<char>) -> bool {
    h != "127.0.0.1"@ && dotted_quad(encode_utf8(h))
}

/// The pieces of the first `i` bytes.
#[verifier::inline]
spec fn fields_before(b: Seq<u8>, i: int) -> Seq<Seq<u8>> {
    dot_fields(b.take(i))
}

/// The last of the pieces of the first `i` bytes: the one still open.
#[verifier::inline]
spec fn open_field(b: Seq<u8>, i: int) -> Seq<u8> {
    dot_fields(b.take(i))[dot_fields(b.take(i)).len() - 1]
}

/// There is always a piece.
proof fn lemma_dot_fields_len(b: Seq<u8>)
    ensures
        1 <= dot_fields(b).len() <= b.len() + 1,
    decreases b.len(),
{
    if b.len() > 0 {
        lemma_dot_fields_len(b.drop_last());
    }
}

/// Whether the bytes are an IPv4 address in dot-decimal notation.
pub fn is_dotted_quad(b: &[u8]) -> (r: bool)
    ensures
        r == dotted_quad(b@),
{
    let mut nfields: usize = 1;
    let mut done_ok: bool = true;
    let mut cur_len: usize = 0;
    let mut cur_first: u8 = 0;
    let mut cur_digits: bool = true;
    let mut cur_val: u32 = 0;
    let mut i: usize = 0;
    assert(b@.take(0) =~= Seq::<u8>::empty());
    while i < b.len()
        invariant
            i <= b@.len(),
            nfields == (if fields_before(b@, i as int).len() < 5 { fields_before(b@, i as int).len() } else { 5 }),
            1 <= fields_before(b@, i as int).len(),
            done_ok == (forall|k: int| 0 <= k < fields_before(b@, i as int).len() - 1 ==> octet_text(#[trigger] fields_before(b@, i as int)[k])),
            cur_len == (if open_field(b@, i as int).len() < 4 { open_field(b@, i as int).len() } else { 4 }),
            (cur_len > 0 ==> cur_first == open_field(b@, i as int)[0]),
            cur_digits == (forall|k: int| 0 <= k < open_field(b@, i as int).len() ==> is_digit(#[trigger] open_field(b@, i as int)[k])),
            (cur_digits && cur_len <= 3 ==> cur_val == decimal(open_field(b@, i as int))),
            (cur_len == 0 ==> cur_val == 0),
            (cur_len <= 1 ==> cur_val <= 9),
            (cur_len <= 2 ==> cur_val <= 99),
            cur_val <= 999,
        decreases b@.len() - i,
    {
        let ghost f0 = dot_fields(b@.take(i as int));
        proof {
            lemma_dot_fields_len(b@.take(i as int));
            assert(b@.take(i + 1).drop_last() =~= b@.take(i as int));
            assert(b@.take(i + 1).last() == b@[i as int]);
        }
        let c = b[i];
        if c == 46 {
            let ok = cur_len >= 1 && cur_len <= 3 && cur_digits && (cur_len == 1 || cur_first != 48) && cur_val <= 255;
            proof {
                let f1 = dot_fields(b@.take(i + 1));
                assert(f1 == f0.push(Seq::<u8>::empty()));
                assert(ok == octet_text(f0[f0.len() - 1]));
                assert forall|k: int| 0 <= k < f1.len() - 1 implies (octet_text(#[trigger] f1[k]) <==> octet_text(f0[k])) by {}
            }
            done_ok = done_ok && ok;
            if nfields < 5 {
                nfields = nfields + 1;
            }
            cur_len = 0;
            cur_first = 0;
            cur_digits = true;
            cur_val = 0;
            proof {
                let f1 = dot_fields(b@.take(i + 1));
                let last1 = f1[f1.len() - 1];
                assert(last1 =~= Seq::<u8>::empty());
                assert(done_ok == (forall|k: int| 0 <= k < f1.len() - 1 ==> octet_text(#[trigger] f1[k]))) by {
                    if done_ok {
                        assert forall|k: int| 0 <= k < f1.len() - 1 implies octet_text(#[trigger] f1[k]) by {
                            if k < f0.len() - 1 {
                                assert(f1[k] == f0[k]);
                            }
                        }
                    } else {
                        if !ok {
                            assert(f1[f0.len() - 1] == f0[f0.len() - 1]);
                        } else {
                            let k0 = choose|k: int| 0 <= k < f0.len() - 1 && !octet_text(#[trigger] f0[k]);
                            assert(f1[k0] == f0[k0]);
                        }
                    }
                }
            }
        } else {
            let ghost last0 = f0[f0.len() - 1];
            let digit = 48 <= c && c <= 57;
            if cur_len == 0 {
                cur_first = c;
            }
            if digit && cur_len < 3 {
                cur_val = cur_val * 10 + (c - 48) as u32;
            }
            cur_digits = cur_digits && digit;
            if cur_len < 4 {
                cur_len = cur_len + 1;
            }
            proof {
                let f1 = dot_fields(b@.take(i + 1));
                let last1 = f1[f1.len() - 1];
                assert(f1 == f0.update(f0.len() - 1, last0.push(c)));
                assert(last1 == last0.push(c));
                assert(last1.drop_last() =~= last0);
                assert forall|k: int| 0 <= k < f1.len() - 1 implies #[trigger] f1[k] == f0[k] by {}
                assert(done_ok == (forall|k: int| 0 <= k < f1.len() - 1 ==> octet_text(#[trigger] f1[k]))) by {
                    if !done_ok {
                        let k0 = choose|k: int| 0 <= k < f0.len() - 1 && !octet_text(#[trigger] f0[k]);
                        assert(f1[k0] == f0[k0]);
                    }
                }
                assert(cur_digits == (forall|k: int| 0 <= k < last1.len() ==> is_digit(#[trigger] last1[k]))) by {
                    if cur_digits {
                        assert forall|k: int| 0 <= k < last1.len() implies is_digit(#[trigger] last1[k]) by {
                            if k < last0.len() {
                                assert(last1[k] == last0[k]);
                            }
                        }
                    } else if !digit {
                        assert(!is_digit(last1[last0.len() as int]));
                    } else {
                        let k0 = choose|k: int| 0 <= k < last0.len() && !is_digit(#[trigger] last0[k]);
                        assert(last1[k0] == last0[k0]);
                    }
                }
                if last0.len() > 0 {
                    assert(last1[0] == last0[0]);
                }
            }
        }
        i = i + 1;
    }
    assert(b@.take(b@.len() as int) =~= b@);
    let last_ok = cur_len >= 1 && cur_len <= 3 && cur_digits && (cur_len == 1 || cur_first != 48) && cur_val <= 255;
    proof {
        let f = dot_fields(b@);
        assert(last_ok == octet_text(f[f.len() - 1]));
        if nfields == 4 && done_ok && last_ok {
            assert forall|k: int| 0 <= k < 4 implies octet_text(#[trigger] f[k]) by {
                if k == 3 {
                    assert(f[k] == f[f.len() - 1]);
                }
            }
        }
        if nfields == 4 && dotted_quad(b@) {
            assert(octet_text(f[3]));
        }
    }
    nfields == 4 && done_ok && last_ok
}

/// The local IP address of the machine, from the text that `ifconfig`
/// prints: the first host that the text gives that is an IPv4 address other
/// than the loopback one, when there is such a host.  (The pattern captures
/// digits and dots only, so no host reads as an IPv6 address.)
pub fn local_ip_from_ifconfig(text: &str) -> (r: Option<String>)
    ensures
        r is None <==> forall|i: int| 0 <= i < inet_hosts(text@).len() ==> !local_host(#[trigger] inet_hosts(text@)[i]),
        r matches Some(h) ==> exists|i: int| 0 <= i < inet_hosts(text@).len() && h@ == inet_hosts(text@)[i]
            && local_host(#[trigger] inet_hosts(text@)[i])
            && forall|j: int| 0 <= j < i ==> !local_host(#[trigger] inet_hosts(text@)[j]),
{
    let hosts = regex_inet_hosts(text);
    let ghost hs = inet_hosts(text@);
    proof {
        assert forall|k: int| 0 <= k < hosts@.len() implies #[trigger] hs[k] == hosts@[k]@ by {
            assert(Seq::new(hosts@.len(), |i: int| hosts@[i]@)[k] == hosts@[k]@);
        }
    }
    let mut i: usize = 0;
    while i < hosts.len()
        invariant
            i <= hosts@.len(),
            hs == inet_hosts(text@),
            hs.len() == hosts@.len(),
            forall|k: int| 0 <= k < hosts@.len() ==> #[trigger] hs[k] == hosts@[k]@,
            forall|j: int| 0 <= j < i ==> !local_host(#[trigger] hs[j]),
        decreases hosts@.len() - i,
    {
        let h = &hosts[i];
        let loopback_text = String::from_str("127.0.0.1");
        let loopback = *h == loopback_text;
        if !loopback && is_dotted_quad(h.as_str().as_bytes()) {
            assert(local_host(hs[i as int]));
            return Some(h.clone());
        }
        assert(!local_host(hs[i as int]));
        i = i + 1;
    }
    None
}

} // verus!
