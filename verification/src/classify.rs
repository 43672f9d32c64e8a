//! Classification of a failed response body.
//!
//! A server error body may embed a Java exception signature of the shape
//! `java.lang.<Name>: <message>`, where the two dots may be any
//! character other than a line break, `<Name>` is a run of ASCII
//! letters, and `<message>` runs to the end of the line. The classifier
//! finds the first such occurrence; a recognized name yields a
//! structured error carrying the message, any other outcome leaves the
//! caller with its generic status error.

use vstd::prelude::*;
use vstd::string::*;

use crate::error::Error;
use crate::text::str_eq;

verus! {

/// Whether a character is an ASCII letter.
pub open spec fn is_ascii_letter(c: char) -> bool {
    ('a' <= c && c <= 'z') || ('A' <= c && c <= 'Z')
}

/// The exception signature matches at position `i` with a name of
/// length `k`: `java`, any character but a line break, `lang`, any
/// character but a line break, `k` ASCII letters, then `: `.
pub open spec fn sig_match_at_len(s: Seq<char>, i: int, k: int) -> bool {
    &&& 0 <= i
    &&& k >= 1
    &&& i + 12 + k <= s.len()
    &&& s.subrange(i, i + 4) == "java"@
    &&& s[i + 4] != '\n'
    &&& s.subrange(i + 5, i + 9) == "lang"@
    &&& s[i + 9] != '\n'
    &&& (forall|j: int| i + 10 <= j < i + 10 + k ==> is_ascii_letter(#[trigger] s[j]))
    &&& s[i + 10 + k] == ':'
    &&& s[i + 11 + k] == ' '
}

/// The exception signature matches at position `i` with some name.
pub open spec fn sig_match_at(s: Seq<char>, i: int) -> bool {
    exists|k: int| sig_match_at_len(s, i, k)
}

/// The body contains the exception signature somewhere.
pub open spec fn has_sig_match(s: Seq<char>) -> bool {
    exists|i: int| sig_match_at(s, i)
}

/// The signature matches at `i` and nowhere earlier.
pub open spec fn first_sig_match_at(s: Seq<char>, i: int) -> bool {
    sig_match_at(s, i) && (forall|j: int| 0 <= j < i ==> !sig_match_at(s, j))
}

/// The index of the first line break at or after `from`, or the length
/// of the text when the line runs to its end.
pub open spec fn line_end(s: Seq<char>, from: int) -> int
    decreases s.len() - from,
{
    if from < 0 || from >= s.len() {
        s.len() as int
    } else if s[from] == '\n' {
        from
    } else {
        line_end(s, from + 1)
    }
}

/// What the classifier returns for a body whose first signature match
/// stands at `i` with a name of length `k`: a structured error for the
/// two recognized exception names, nothing for any other name.
pub open spec fn classified_as(s: Seq<char>, i: int, k: int, r: Option<Error>) -> bool {
    let name = s.subrange(i + 10, i + 10 + k);
    let msg = s.subrange(i + 12 + k, line_end(s, i + 12 + k));
    if name == "IllegalStateException"@ {
        r matches Option::Some(e) && (e matches Error::IllegalState { message: m } && m@ == msg)
    } else if name == "IllegalArgumentException"@ {
        r matches Option::Some(e) && (e matches Error::IllegalArgument { message: m } && m@ == msg)
    } else {
        r is None
    }
}

/// Below any match position stands a first one.
proof fn lemma_first_match_below(s: Seq<char>, i: int)
    requires
        0 <= i,
        sig_match_at(s, i),
    ensures
        exists|j: int| first_sig_match_at(s, j),
    decreases i,
{
    if exists|j: int| 0 <= j < i && sig_match_at(s, j) {
        let j = choose|j: int| 0 <= j < i && sig_match_at(s, j);
        lemma_first_match_below(s, j);
    } else {
        assert(first_sig_match_at(s, i));
    }
}

/// A body that contains the signature contains a first occurrence of
/// it, which is the one the classifier reports on.
pub proof fn lemma_first_sig_match_exists(s: Seq<char>)
    requires
        has_sig_match(s),
    ensures
        exists|i: int| first_sig_match_at(s, i),
{
    let i = choose|i: int| sig_match_at(s, i);
    let k = choose|k: int| sig_match_at_len(s, i, k);
    assert(i >= 0);
    lemma_first_match_below(s, i);
}

/// At one position, only one name length can match: the name stops at
/// the first `:`, which is not a letter.
proof fn lemma_sig_match_len_unique(s: Seq<char>, i: int, k1: int, k2: int)
    requires
        sig_match_at_len(s, i, k1),
        sig_match_at_len(s, i, k2),
    ensures
        k1 == k2,
{
    if k1 < k2 {
        assert(is_ascii_letter(s[i + 10 + k1]));
    }
    if k2 < k1 {
        assert(is_ascii_letter(s[i + 10 + k2]));
    }
}

/// Establishes `line_end` from a scan that stopped at `e`.
proof fn lemma_line_end_of(s: Seq<char>, from: int, e: int)
    requires
        0 <= from <= e <= s.len(),
        forall|j: int| from <= j < e ==> s[j] != '\n',
        e == s.len() || s[e] == '\n',
    ensures
        line_end(s, from) == e,
    decreases e - from,
{
    if from < e {
        lemma_line_end_of(s, from + 1, e);
    }
}

/// Whether the character at `pos` is an ASCII letter.
fn letter_at(body: &str, pos: usize) -> (b: bool)
    requires
        pos < body@.len(),
    ensures
        b == is_ascii_letter(body@[pos as int]),
{
    let c = body.get_char(pos);
    ('a' <= c && c <= 'z') || ('A' <= c && c <= 'Z')
}

/// Decides whether the exception signature matches at position `i`,
/// returning the length of the letter run of its name.
fn match_at(body: &str, i: usize, n: usize) -> (ret: Option<usize>)
    requires
        n == body@.len(),
        i + 13 <= n,
    ensures
        match ret {
            Option::Some(k) => sig_match_at_len(body@, i as int, k as int),
            Option::None => !sig_match_at(body@, i as int),
        },
{
    let ghost s = body@;
    proof {
        reveal_strlit("java");
        reveal_strlit("lang");
    }
    if !(body.get_char(i) == 'j' && body.get_char(i + 1) == 'a' && body.get_char(i + 2) == 'v'
        && body.get_char(i + 3) == 'a') {
        proof {
            assert forall|k: int| !sig_match_at_len(s, i as int, k) by {
                if sig_match_at_len(s, i as int, k) {
                    let sub = s.subrange(i as int, i + 4);
                    assert(sub[0] == s[i as int] && sub[1] == s[i + 1] && sub[2] == s[i + 2]
                        && sub[3] == s[i + 3]);
                    assert("java"@[0] == 'j' && "java"@[1] == 'a' && "java"@[2] == 'v' && "java"@[3]
                        == 'a');
                }
            }
        }
        return Option::None;
    }
    if body.get_char(i + 4) == '\n' {
        return Option::None;
    }
    if !(body.get_char(i + 5) == 'l' && body.get_char(i + 6) == 'a' && body.get_char(i + 7) == 'n'
        && body.get_char(i + 8) == 'g') {
        proof {
            assert forall|k: int| !sig_match_at_len(s, i as int, k) by {
                if sig_match_at_len(s, i as int, k) {
                    let sub = s.subrange(i + 5, i + 9);
                    assert(sub[0] == s[i + 5] && sub[1] == s[i + 6] && sub[2] == s[i + 7] && sub[3]
                        == s[i + 8]);
                    assert("lang"@[0] == 'l' && "lang"@[1] == 'a' && "lang"@[2] == 'n' && "lang"@[3]
                        == 'g');
                }
            }
        }
        return Option::None;
    }
    if body.get_char(i + 9) == '\n' {
        return Option::None;
    }
    let mut pos: usize = i + 10;
    while pos < n && letter_at(body, pos)
        invariant
            s == body@,
            n == s.len(),
            i + 10 <= pos <= n,
            forall|j: int| i + 10 <= j < pos ==> is_ascii_letter(#[trigger] s[j]),
        decreases n - pos,
    {
        pos = pos + 1;
    }
    let k = pos - (i + 10);
    if k == 0 {
        proof {
            assert(!is_ascii_letter(s[i + 10]));
            assert forall|kk: int| !sig_match_at_len(s, i as int, kk) by {
                if sig_match_at_len(s, i as int, kk) {
                    assert(is_ascii_letter(s[i + 10]));
                }
            }
        }
        return Option::None;
    }
    if pos >= n - 1 {
        proof {
            assert forall|kk: int| !sig_match_at_len(s, i as int, kk) by {
                if sig_match_at_len(s, i as int, kk) {
                    if kk < k {
                        assert(is_ascii_letter(s[i + 10 + kk]));
                        assert(s[i + 10 + kk] == ':');
                    } else if kk > k {
                        if pos < n {
                            assert(is_ascii_letter(s[pos as int]));
                        }
                    } else {
                        assert(i + 12 + kk > n);
                    }
                }
            }
        }
        return Option::None;
    }
    if !(body.get_char(pos) == ':' && body.get_char(pos + 1) == ' ') {
        proof {
            assert forall|kk: int| !sig_match_at_len(s, i as int, kk) by {
                if sig_match_at_len(s, i as int, kk) {
                    if kk < k {
                        assert(is_ascii_letter(s[i + 10 + kk]));
                        assert(s[i + 10 + kk] == ':');
                    } else if kk > k {
                        assert(is_ascii_letter(s[pos as int]));
                        assert(s[pos as int] == ':' || ('a' <= s[pos as int] && s[pos as int]
                            <= 'z') || ('A' <= s[pos as int] && s[pos as int] <= 'Z'));
                    } else {
                        assert(s[i + 10 + kk] == ':' && s[i + 11 + kk] == ' ');
                    }
                }
            }
        }
        return Option::None;
    }
    proof {
        assert(s.subrange(i as int, i + 4) =~= "java"@);
        assert(s.subrange(i + 5, i + 9) =~= "lang"@);
        assert(sig_match_at_len(s, i as int, k as int));
    }
    Option::Some(k)
}

/// Scans a failed response body for the first embedded exception
/// signature. A recognized exception name yields the matching
/// structured error carrying the rest of its line as the message;
/// no match, or an unrecognized name, yields nothing and the caller
/// keeps its generic status error.
pub fn classify_error_body(body: &str) -> (r: Option<Error>)
    ensures
        r is Some ==> has_sig_match(body@),
        !has_sig_match(body@) ==> r is None,
        forall|i: int, k: int|
            first_sig_match_at(body@, i) && sig_match_at_len(body@, i, k) ==> classified_as(
                body@,
                i,
                k,
                r,
            ),
{
    let ghost s = body@;
    let n = body.unicode_len();
    if n < 13 {
        proof {
            assert forall|i: int| !sig_match_at(s, i) by {
                if sig_match_at(s, i) {
                    let k = choose|k: int| sig_match_at_len(s, i, k);
                    assert(i + 12 + k <= s.len() && k >= 1 && i >= 0);
                }
            }
        }
        return Option::None;
    }
    let mut i: usize = 0;
    while i <= n - 13
        invariant
            s == body@,
            n == s.len(),
            13 <= n,
            i <= n - 12,
            forall|j: int| 0 <= j < i ==> !sig_match_at(s, j),
        decreases n - i,
    {
        match match_at(body, i, n) {
            Option::Some(k) => {
                proof {
                    assert(sig_match_at_len(s, i as int, k as int));
                    assert(sig_match_at(s, i as int));
                    assert(first_sig_match_at(s, i as int));
                    assert(i + 12 + k <= n);
                }
                let name_end = i + 10 + k;
                let name = body.substring_char(i + 10, name_end);
                let msg_start = name_end + 2;
                let mut eol: usize = msg_start;
                while eol < n && body.get_char(eol) != '\n'
                    invariant
                        s == body@,
                        n == s.len(),
                        msg_start <= eol <= n,
                        forall|j: int| msg_start <= j < eol ==> s[j] != '\n',
                    decreases n - eol,
                {
                    eol = eol + 1;
                }
                proof {
                    lemma_line_end_of(s, msg_start as int, eol as int);
                }
                let msg = body.substring_char(msg_start, eol);
                let r: Option<Error> = if str_eq(name, "IllegalStateException") {
                    Option::Some(Error::IllegalState { message: msg.to_owned() })
                } else if str_eq(name, "IllegalArgumentException") {
                    Option::Some(Error::IllegalArgument { message: msg.to_owned() })
                } else {
                    Option::None
                };
                proof {
                    assert forall|fi: int, fk: int|
                        first_sig_match_at(s, fi) && sig_match_at_len(s, fi, fk) implies classified_as(
                        s,
                        fi,
                        fk,
                        r,
                    ) by {
                        if fi < i as int {
                            assert(sig_match_at(s, fi));
                        } else if fi > i as int {
                            assert(!sig_match_at(s, i as int));
                        } else {
                            lemma_sig_match_len_unique(s, i as int, fk, k as int);
                        }
                    }
                }
                return r;
            },
            Option::None => {
                i = i + 1;
            },
        }
    }
    proof {
        assert forall|j: int| !sig_match_at(s, j) by {
            if sig_match_at(s, j) {
                let k = choose|k: int| sig_match_at_len(s, j, k);
                assert(j + 12 + k <= s.len() && k >= 1 && j >= 0);
                assert(j < i);
            }
        }
    }
    Option::None
}

} // verus!
