//! The shape of an email address as the user API accepts it before a user
//! is stored: `local@label(.label)*.tld`. The local part is any nonempty
//! run without `@`; each domain label is a nonempty run of ASCII letters,
//! digits, hyphens or the German letters in either case; the final label is
//! two to four ASCII letters.

use vstd::prelude::*;

verus! {

/// An ASCII letter, as the final domain label demands.
pub open spec fn is_tld_char(c: char) -> bool {
    ||| 'a' as u32 <= c as u32 && c as u32 <= 'z' as u32
    ||| 'A' as u32 <= c as u32 && c as u32 <= 'Z' as u32
}

/// A character a domain label may hold: ASCII letters and digits, hyphen,
/// and the German letters in either case.
pub open spec fn is_domain_char(c: char) -> bool {
    ||| is_tld_char(c)
    ||| '0' as u32 <= c as u32 && c as u32 <= '9' as u32
    ||| c == '-'
    ||| c == '\u{fc}' || c == '\u{e4}' || c == '\u{f6}' || c == '\u{df}'
    ||| c == '\u{dc}' || c == '\u{c4}' || c == '\u{d6}' || c == '\u{1e9e}'
}

/// The labels before the final dot: nonempty, every character a domain
/// character or a separating dot, and no label empty.
pub open spec fn valid_labels(s: Seq<char>) -> bool {
    &&& s.len() > 0
    &&& s[0] != '.'
    &&& s[s.len() - 1] != '.'
    &&& forall|q: int| 0 <= q < s.len() ==> is_domain_char(#[trigger] s[q]) || s[q] == '.'
    &&& forall|q: int| 0 <= q < s.len() - 1 ==> !(#[trigger] s[q] == '.' && s[q + 1] == '.')
}

/// A domain: labels, a final dot, and a final label of two to four ASCII
/// letters.
pub open spec fn valid_domain(d: Seq<char>) -> bool {
    exists|p: int|
        {
            &&& 0 <= p < d.len()
            &&& #[trigger] d[p] == '.'
            &&& forall|q: int| p < q < d.len() ==> #[trigger] d[q] != '.'
            &&& 2 <= d.len() - p - 1 <= 4
            &&& forall|q: int| p < q < d.len() ==> is_tld_char(#[trigger] d[q])
            &&& valid_labels(d.take(p))
        }
}

/// A whole address: a nonempty local part without `@`, one `@`, and a valid
/// domain (whose characters exclude `@` on their own).
pub open spec fn valid_email(s: Seq<char>) -> bool {
    exists|a: int|
        {
            &&& 0 < a < s.len()
            &&& #[trigger] s[a] == '@'
            &&& forall|q: int| 0 <= q < a ==> #[trigger] s[q] != '@'
            &&& valid_domain(s.skip(a + 1))
        }
}

/// The rejection of an address that does not have the accepted shape.
#[derive(Debug, Clone, PartialEq, Eq)]
pub struct EmailFormatError;

fn check_tld_char(c: char) -> (r: bool)
    ensures
        r == is_tld_char(c),
{
    ('a' as u32 <= c as u32 && c as u32 <= 'z' as u32)
        || ('A' as u32 <= c as u32 && c as u32 <= 'Z' as u32)
}

fn check_domain_char(c: char) -> (r: bool)
    ensures
        r == is_domain_char(c),
{
    check_tld_char(c)
        || ('0' as u32 <= c as u32 && c as u32 <= '9' as u32)
        || c == '-'
        || c == '\u{fc}' || c == '\u{e4}' || c == '\u{f6}' || c == '\u{df}'
        || c == '\u{dc}' || c == '\u{c4}' || c == '\u{d6}' || c == '\u{1e9e}'
}

/// Accepts exactly the addresses of the shape above, handing a valid one
/// back unchanged.
#[verifier::loop_isolation(false)]
#[verifier::rlimit(50)]
pub fn parse_email_from_string(email: String) -> (r: Result<String, EmailFormatError>)
    ensures
        r matches Ok(e) ==> e == email,
        r is Ok <==> valid_email(email@),
{
    let s = email.as_str();
    let n = s.unicode_len();
    let ghost v = email@;

    // The first `@` bounds the local part.
    let mut at: usize = 0;
    let mut found_at = false;
    while at < n && !found_at
        invariant
            n == v.len(),
            v == s@,
            at <= n,
            found_at ==> at < n && v[at as int] == '@',
            forall|q: int| 0 <= q < at ==> #[trigger] v[q] != '@',
            found_at || at == 0 || v[at as int - 1] != '@',
        decreases (if found_at { 0int } else { 1int }), n - at,
    {
        if s.get_char(at) == '@' {
            found_at = true;
        } else {
            at += 1;
        }
    }
    if !found_at || at == 0 {
        proof {
            assert(!valid_email(v)) by {
                if valid_email(v) {
                    let a = choose|a: int|
                        0 < a < v.len() && #[trigger] v[a] == '@'
                            && (forall|q: int| 0 <= q < a ==> #[trigger] v[q] != '@')
                            && valid_domain(v.skip(a + 1));
                    if !found_at {
                        assert(v[a] != '@');
                    }
                }
            }
        }
        return Err(EmailFormatError);
    }

    // Any other candidate split is ruled out by this first `@`, so the
    // address is valid exactly when the part after it is a valid domain.
    proof {
        assert forall|a: int|
            0 < a < v.len() && #[trigger] v[a] == '@'
                && (forall|q: int| 0 <= q < a ==> #[trigger] v[q] != '@') implies a == at as int by {
            if a < at as int {
                assert(v[a] != '@');
            } else if a > at as int {
                assert(v[at as int] != '@');
            }
        }
    }
    let ghost d = v.skip(at as int + 1);

    // The last dot bounds the final label.
    let mut last_dot: usize = 0;
    let mut found_dot = false;
    let mut idx: usize = at + 1;
    while idx < n
        invariant
            n == v.len(),
            v == s@,
            at < idx <= n,
            d == v.skip(at as int + 1),
            found_dot ==> at < last_dot && last_dot < idx && v[last_dot as int] == '.',
            found_dot ==> forall|q: int| last_dot < q < idx ==> #[trigger] v[q] != '.',
            !found_dot ==> forall|q: int| at < q < idx ==> #[trigger] v[q] != '.',
        decreases n - idx,
    {
        if s.get_char(idx) == '.' {
            last_dot = idx;
            found_dot = true;
        }
        idx += 1;
    }
    if !found_dot {
        proof {
            assert(!valid_email(v)) by {
                if valid_email(v) {
                    let a = choose|a: int|
                        0 < a < v.len() && #[trigger] v[a] == '@'
                            && (forall|q: int| 0 <= q < a ==> #[trigger] v[q] != '@')
                            && valid_domain(v.skip(a + 1));
                    assert(a == at as int);
                    let pp = choose|pp: int|
                        0 <= pp < d.len() && #[trigger] d[pp] == '.'
                            && (forall|q: int| pp < q < d.len() ==> #[trigger] d[q] != '.')
                            && 2 <= d.len() - pp - 1 <= 4
                            && (forall|q: int| pp < q < d.len() ==> is_tld_char(#[trigger] d[q]))
                            && valid_labels(d.take(pp));
                    assert(v[at as int + 1 + pp] == '.');
                }
            }
        }
        return Err(EmailFormatError);
    }
    let p = last_dot;

    // Any candidate final dot is this last dot.
    proof {
        assert(d[p - at - 1] == '.');
        assert forall|pp: int|
            0 <= pp < d.len() && #[trigger] d[pp] == '.'
                && (forall|q: int| pp < q < d.len() ==> #[trigger] d[q] != '.') implies pp == p - at - 1 by {
            if pp < p - at - 1 {
                assert(d[p - at - 1] != '.');
            } else if pp > p - at - 1 {
                assert(v[at as int + 1 + pp] == '.');
            }
        }
    }

    // The final label: two to four ASCII letters.
    let tld_len = n - p - 1;
    if tld_len < 2 || tld_len > 4 {
        proof {
            lemma_unique_candidates(v, d, at as int, p as int);
        }
        return Err(EmailFormatError);
    }
    let mut q: usize = p + 1;
    while q < n
        invariant
            n == v.len(),
            v == s@,
            p < q <= n,
            d == v.skip(at as int + 1),
            at < p < n,
            forall|t: int| p < t < q ==> is_tld_char(#[trigger] v[t]),
        decreases n - q,
    {
        if !check_tld_char(s.get_char(q)) {
            proof {
                lemma_unique_candidates(v, d, at as int, p as int);
                assert(!is_tld_char(d[q - at - 1]));
            }
            return Err(EmailFormatError);
        }
        q += 1;
    }

    // The labels before the final dot.
    if p == at + 1 {
        proof {
            lemma_unique_candidates(v, d, at as int, p as int);
            assert(d.take(p - at - 1).len() == 0);
        }
        return Err(EmailFormatError);
    }
    let ghost labels = d.take(p - at - 1);
    proof {
        assert(labels.len() == p - at - 1);
        assert(forall|t: int| 0 <= t < labels.len() ==> labels[t] == v[at as int + 1 + t]);
    }
    let mut q2: usize = at + 1;
    while q2 < p
        invariant
            n == v.len(),
            v == s@,
            at + 1 <= q2 <= p,
            p < n,
            at < p,
            d == v.skip(at as int + 1),
            labels == d.take(p - at - 1),
            labels.len() == p - at - 1,
            forall|t: int| 0 <= t < labels.len() ==> #[trigger] labels[t] == v[at as int + 1 + t],
            forall|t: int| at < t < q2 ==> is_domain_char(#[trigger] v[t]) || v[t] == '.',
            forall|t: int| at < t < q2 - 1 ==> !(#[trigger] v[t] == '.' && v[t + 1] == '.'),
            q2 > at + 1 ==> v[at as int + 1] != '.',
            q2 > at + 1 ==> (q2 == p ==> v[q2 as int - 1] != '.'),
        decreases p - q2,
    {
        let c = s.get_char(q2);
        let is_dot = c == '.';
        if !is_dot && !check_domain_char(c) {
            proof {
                lemma_unique_candidates(v, d, at as int, p as int);
                assert(labels[q2 - at - 1] == v[q2 as int]);
                assert(!(is_domain_char(labels[q2 - at - 1]) || labels[q2 - at - 1] == '.'));
            }
            return Err(EmailFormatError);
        }
        if is_dot && q2 == at + 1 {
            proof {
                lemma_unique_candidates(v, d, at as int, p as int);
                assert(labels[0] == '.');
            }
            return Err(EmailFormatError);
        }
        if is_dot && q2 + 1 == p {
            proof {
                lemma_unique_candidates(v, d, at as int, p as int);
                assert(labels[labels.len() - 1] == '.');
            }
            return Err(EmailFormatError);
        }
        if is_dot && q2 > at + 1 {
            let prev = s.get_char(q2 - 1);
            if prev == '.' {
                proof {
                    lemma_unique_candidates(v, d, at as int, p as int);
                    assert(labels[q2 - at - 2] == '.' && labels[q2 - at - 1] == '.');
                }
                return Err(EmailFormatError);
            }
        }
        q2 += 1;
    }

    // Everything checked: the witness split is the first `@` and the last
    // dot.
    proof {
        assert(valid_labels(labels)) by {
            assert(labels[0] == v[at as int + 1]);
            assert(labels[labels.len() - 1] == v[p - 1]);
            assert forall|t: int| 0 <= t < labels.len() implies is_domain_char(#[trigger] labels[t])
                || labels[t] == '.' by {
                assert(labels[t] == v[at as int + 1 + t]);
            }
            assert forall|t: int| 0 <= t < labels.len() - 1 implies !(#[trigger] labels[t] == '.'
                && labels[t + 1] == '.') by {
                assert(labels[t] == v[at as int + 1 + t]);
                assert(labels[t + 1] == v[at as int + 1 + t + 1]);
            }
        }
        assert(valid_domain(d)) by {
            let pp = p - at - 1;
            assert(d[pp] == '.');
            assert(forall|t: int| pp < t < d.len() ==> #[trigger] d[t] == v[at as int + 1 + t]);
            assert forall|t: int| pp < t < d.len() implies #[trigger] d[t] != '.' && is_tld_char(d[t]) by {
                assert(d[t] == v[at as int + 1 + t]);
                assert(is_tld_char(v[at as int + 1 + t]));
            }
            assert(2 <= d.len() - pp - 1 <= 4);
        }
        assert(valid_email(v)) by {
            assert(v[at as int] == '@');
        }
    }
    Ok(email)
}

/// With the first `@` and the last dot fixed, no other split can witness
/// validity: the address is valid exactly when that one split passes every
/// check.
proof fn lemma_unique_candidates(v: Seq<char>, d: Seq<char>, at: int, p: int)
    requires
        0 < at < v.len(),
        v[at] == '@',
        forall|q: int| 0 <= q < at ==> #[trigger] v[q] != '@',
        d == v.skip(at + 1),
        at < p < v.len(),
        v[p] == '.',
        forall|q: int| p < q < v.len() ==> #[trigger] v[q] != '.',
    ensures
        valid_email(v) ==> {
            &&& 2 <= v.len() - p - 1 <= 4
            &&& forall|q: int| p < q < v.len() ==> is_tld_char(#[trigger] v[q])
            &&& valid_labels(d.take(p - at - 1))
        },
{
    if valid_email(v) {
        let a = choose|a: int|
            0 < a < v.len() && #[trigger] v[a] == '@'
                && (forall|q: int| 0 <= q < a ==> #[trigger] v[q] != '@')
                && valid_domain(v.skip(a + 1));
        assert(a == at) by {
            if a < at {
                assert(v[a] != '@');
            } else if a > at {
                assert(v[at] != '@');
            }
        }
        let pp = choose|pp: int|
            0 <= pp < d.len() && #[trigger] d[pp] == '.'
                && (forall|q: int| pp < q < d.len() ==> #[trigger] d[q] != '.')
                && 2 <= d.len() - pp - 1 <= 4
                && (forall|q: int| pp < q < d.len() ==> is_tld_char(#[trigger] d[q]))
                && valid_labels(d.take(pp));
        assert(pp == p - at - 1) by {
            if pp < p - at - 1 {
                assert(d[p - at - 1] == v[p]);
                assert(d[p - at - 1] != '.');
            } else if pp > p - at - 1 {
                assert(v[at + 1 + pp] == d[pp]);
                assert(v[at + 1 + pp] != '.');
            }
        }
        assert forall|q: int| p < q < v.len() implies is_tld_char(#[trigger] v[q]) by {
            assert(v[q] == d[q - at - 1]);
            assert(is_tld_char(d[q - at - 1]));
        }
        assert(2 <= v.len() - p - 1 <= 4) by {
            assert(d.len() == v.len() - at - 1);
        }
    }
}

} // verus!
