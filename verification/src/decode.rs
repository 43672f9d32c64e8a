//! Parsing a path string back into a resource location.
//!
//! The grammar is keyed on the literal content of the first path segment
//! and on the total count of `/` characters, exactly as the server's
//! self-URLs are shaped. Inputs are expected to end with a trailing `/`;
//! an input that matches no branch of the grammar decodes to
//! [`Path::Raw`]. A branch that requires a numeric segment fails with
//! [`Error::MalformedPath`] when that segment is not a valid number.
//!
//! The grammar is deliberately narrower than the encoder: it covers only
//! the shapes the server produces as self-URLs (views, jobs, builds,
//! maven artifact records, folders and queue items). A job whose
//! configuration name is purely numeric decodes as a build number; that
//! ambiguity is part of the grammar.

use vstd::prelude::*;
use vstd::string::*;

use crate::error::{Error, ExpectedType};
use crate::path::{BuildNumber, Name, NameView, Path, PathView};
use crate::text::{
    dec_str, is_i32_numeral, is_u32_numeral, i32_numeral_val, parse_i32, parse_u32, str_eq,
    u32_numeral_val,
};

verus! {

/// The indices of all `/` characters of `s`, in increasing order.
pub open spec fn slash_positions(s: Seq<char>) -> Seq<int>
    decreases s.len(),
{
    if s.len() == 0 {
        Seq::empty()
    } else if s.last() == '/' {
        slash_positions(s.drop_last()) + seq![s.len() - 1]
    } else {
        slash_positions(s.drop_last())
    }
}

/// The slash positions are in-bounds indices of `/` characters, listed
/// in strictly increasing order.
pub proof fn lemma_slash_positions(s: Seq<char>)
    ensures
        forall|k: int|
            0 <= k < slash_positions(s).len() ==> 0 <= #[trigger] slash_positions(s)[k] < s.len()
                && s[slash_positions(s)[k]] == '/',
        forall|j: int, k: int|
            0 <= j < k < slash_positions(s).len() ==> slash_positions(s)[j] < slash_positions(
                s,
            )[k],
    decreases s.len(),
{
    if s.len() > 0 {
        let d = s.drop_last();
        let sp = slash_positions(s);
        let spd = slash_positions(d);
        lemma_slash_positions(d);
        assert(forall|k: int|
            0 <= k < spd.len() ==> d[#[trigger] spd[k]] == s[spd[k]]);
        assert forall|j: int, k: int| 0 <= j < k < sp.len() implies sp[j] < sp[k] by {
            if k < spd.len() {
                assert(sp[j] == spd[j] && sp[k] == spd[k]);
            } else {
                assert(sp[j] == spd[j]);
                assert(spd[j] < d.len());
            }
        }
    }
}

/// The part of `url` that remains once a leading occurrence of `base`
/// is stripped; `url` unchanged when it does not start with `base`.
pub open spec fn spec_relative(base: Seq<char>, url: Seq<char>) -> Seq<char> {
    if base.len() <= url.len() && url.subrange(0, base.len() as int) == base {
        url.subrange(base.len() as int, url.len() as int)
    } else {
        url
    }
}

/// The decoding grammar over a server-relative path string.
///
/// `Err(())` marks a path that committed to a branch requiring a numeric
/// segment whose text is not a valid number. Note that the five-slash
/// artifact branch reads its build number from the text following the
/// fourth slash; for a trailing-slash input that text is the
/// `mavenArtifacts` keyword itself, never numeric, so that branch
/// always reports a malformed path. The six-slash artifact branch reads
/// a proper segment and succeeds.
pub open spec fn spec_decode(s: Seq<char>) -> Result<PathView, ()>
    decreases s.len(),
    via spec_decode_decreases
{
    let sl = slash_positions(s);
    let n = sl.len() as int;
    if n < 2 {
        Ok(PathView::Raw { path: s })
    } else {
        let first = s.subrange(0, sl[1]);
        if first == "/view"@ && n == 3 {
            Ok(
                PathView::View {
                    name: NameView::UrlEncodedName(s.subrange(6, s.len() - 1)),
                },
            )
        } else if first == "/job"@ && n == 3 {
            Ok(
                PathView::Job {
                    name: NameView::UrlEncodedName(s.subrange(5, s.len() - 1)),
                    configuration: Option::None,
                },
            )
        } else if first == "/job"@ && n == 4 {
            let last = s.subrange(sl[2] + 1, s.len() - 1);
            if is_u32_numeral(last) {
                Ok(
                    PathView::Build {
                        job_name: NameView::UrlEncodedName(s.subrange(5, sl[2])),
                        number: BuildNumber::Number(u32_numeral_val(last) as u32),
                        configuration: Option::None,
                    },
                )
            } else {
                Ok(
                    PathView::Job {
                        name: NameView::UrlEncodedName(s.subrange(5, sl[2])),
                        configuration: Option::Some(NameView::UrlEncodedName(last)),
                    },
                )
            }
        } else if first == "/job"@ && n == 5 {
            if s.subrange(sl[3], sl[4]) == "/mavenArtifacts"@ {
                let numseg = s.subrange(sl[3] + 1, s.len() - 1);
                if is_u32_numeral(numseg) {
                    Ok(
                        PathView::MavenArtifactRecord {
                            job_name: NameView::UrlEncodedName(s.subrange(5, sl[2])),
                            number: BuildNumber::Number(u32_numeral_val(numseg) as u32),
                            configuration: Option::None,
                        },
                    )
                } else {
                    Err(())
                }
            } else if s.subrange(sl[2], sl[3]) == "/job"@ {
                match spec_decode(s.subrange(sl[2], s.len() as int)) {
                    Ok(inner) => Ok(
                        PathView::InFolder {
                            folder_name: NameView::UrlEncodedName(s.subrange(5, sl[2])),
                            path: Box::new(inner),
                        },
                    ),
                    Err(e) => Err(e),
                }
            } else {
                let numseg = s.subrange(sl[3] + 1, s.len() - 1);
                if is_u32_numeral(numseg) {
                    Ok(
                        PathView::Build {
                            job_name: NameView::UrlEncodedName(s.subrange(5, sl[2])),
                            number: BuildNumber::Number(u32_numeral_val(numseg) as u32),
                            configuration: Option::Some(
                                NameView::UrlEncodedName(s.subrange(sl[2] + 1, sl[3])),
                            ),
                        },
                    )
                } else {
                    Err(())
                }
            }
        } else if first == "/job"@ && n == 6 {
            if s.subrange(sl[2], sl[3]) == "/job"@ {
                match spec_decode(s.subrange(sl[2], s.len() as int)) {
                    Ok(inner) => Ok(
                        PathView::InFolder {
                            folder_name: NameView::UrlEncodedName(s.subrange(5, sl[2])),
                            path: Box::new(inner),
                        },
                    ),
                    Err(e) => Err(e),
                }
            } else {
                let numseg = s.subrange(sl[3] + 1, sl[4]);
                if is_u32_numeral(numseg) {
                    Ok(
                        PathView::MavenArtifactRecord {
                            job_name: NameView::UrlEncodedName(s.subrange(5, sl[2])),
                            number: BuildNumber::Number(u32_numeral_val(numseg) as u32),
                            configuration: Option::Some(
                                NameView::UrlEncodedName(s.subrange(sl[2] + 1, sl[3])),
                            ),
                        },
                    )
                } else {
                    Err(())
                }
            }
        } else if first == "/queue"@ && n == 4 {
            let idseg = s.subrange(sl[2] + 1, s.len() - 1);
            if is_i32_numeral(idseg) {
                Ok(PathView::QueueItem { id: i32_numeral_val(idseg) as i32 })
            } else {
                Err(())
            }
        } else {
            Ok(PathView::Raw { path: s })
        }
    }
}

#[via_fn]
proof fn spec_decode_decreases(s: Seq<char>) {
    lemma_slash_positions(s);
}

/// Collects the indices of all `/` characters of `s`, in order.
fn find_slashes(s: &str) -> (v: Vec<usize>)
    ensures
        v@.map_values(|x: usize| x as int) == slash_positions(s@),
{
    let n = s.unicode_len();
    let mut v: Vec<usize> = Vec::new();
    let mut i: usize = 0;
    while i < n
        invariant
            i <= n,
            n == s@.len(),
            v@.map_values(|x: usize| x as int) == slash_positions(s@.subrange(0, i as int)),
        decreases n - i,
    {
        let c = s.get_char(i);
        let ghost pref1 = s@.subrange(0, i + 1 as int);
        proof {
            assert(pref1.drop_last() =~= s@.subrange(0, i as int));
            assert(pref1.last() == s@[i as int]);
        }
        if c == '/' {
            let ghost old_v = v@;
            v.push(i);
            proof {
                assert(v@.map_values(|x: usize| x as int) =~= old_v.map_values(
                    |x: usize| x as int,
                ) + seq![i as int]);
            }
        }
        i = i + 1;
    }
    proof {
        assert(s@.subrange(0, n as int) =~= s@);
    }
    v
}

/// Decodes a server-relative path string, following the grammar of
/// [`spec_decode`]. A path that matches no branch decodes to
/// [`Path::Raw`]; a committed branch whose numeric segment does not
/// parse yields [`Error::MalformedPath`] carrying the path.
pub fn decode_relative(path: &str) -> (r: Result<Path, Error>)
    ensures
        match r {
            Ok(p) => spec_decode(path@) == Ok::<PathView, ()>(p@),
            Err(e) => spec_decode(path@) is Err && (e matches Error::MalformedPath {
                path: q,
            } && q@ == path@),
        },
    decreases path@.len(),
{
    let n = path.unicode_len();
    let slashes = find_slashes(path);
    proof {
        lemma_slash_positions(path@);
    }
    let ghost sl = slash_positions(path@);
    let nsl = slashes.len();
    proof {
        assert(forall|k: int| 0 <= k < sl.len() ==> #[trigger] sl[k] == slashes@[k] as int);
    }
    if nsl < 2 {
        return Ok(Path::Raw { path: path.to_owned() });
    }
    let sl1 = slashes[1];
    proof {
        assert(sl[1] < path@.len());
    }
    let first = path.substring_char(0, sl1);
    let is_view = str_eq(first, "/view");
    let is_job = str_eq(first, "/job");
    let is_queue = str_eq(first, "/queue");
    proof {
        reveal_strlit("/view");
        reveal_strlit("/job");
        reveal_strlit("/queue");
        assert(sl[0] < sl[1]);
        if nsl >= 3 {
            assert(sl[1] < sl[2]);
            assert(sl[2] < path@.len());
        }
        if nsl >= 4 {
            assert(sl[2] < sl[3]);
            assert(sl[3] < path@.len());
        }
        if nsl >= 5 {
            assert(sl[3] < sl[4]);
            assert(sl[4] < path@.len());
        }
        if nsl >= 6 {
            assert(sl[4] < sl[5]);
            assert(sl[5] < path@.len());
        }
    }
    if is_view && nsl == 3 {
        proof {
            reveal_strlit("/view");
            assert(first@ == path@.subrange(0, slashes@[1] as int));
            assert(first@.len() == sl[1]);
            assert(sl[1] == 5);
        }
        let name = path.substring_char(6, n - 1);
        Ok(
            Path::View {
                name: Name::UrlEncodedName(name.to_owned()),
            },
        )
    } else if is_job && nsl == 3 {
        proof {
            reveal_strlit("/job");
            assert(first@ == path@.subrange(0, slashes@[1] as int));
            assert(first@.len() == sl[1]);
            assert(sl[1] == 4);
        }
        let name = path.substring_char(5, n - 1);
        Ok(
            Path::Job {
                name: Name::UrlEncodedName(name.to_owned()),
                configuration: Option::None,
            },
        )
    } else if is_job && nsl == 4 {
        proof {
            reveal_strlit("/job");
            assert(first@ == path@.subrange(0, slashes@[1] as int));
            assert(first@.len() == sl[1]);
            assert(sl[1] == 4);
        }
        let sl2 = slashes[2];
        let last = path.substring_char(sl2 + 1, n - 1);
        let job = path.substring_char(5, sl2);
        match parse_u32(last) {
            Option::Some(v) => Ok(
                Path::Build {
                    job_name: Name::UrlEncodedName(job.to_owned()),
                    number: BuildNumber::Number(v),
                    configuration: Option::None,
                },
            ),
            Option::None => Ok(
                Path::Job {
                    name: Name::UrlEncodedName(job.to_owned()),
                    configuration: Option::Some(Name::UrlEncodedName(last.to_owned())),
                },
            ),
        }
    } else if is_job && nsl == 5 {
        proof {
            reveal_strlit("/job");
            assert(first@ == path@.subrange(0, slashes@[1] as int));
            assert(first@.len() == sl[1]);
            assert(sl[1] == 4);
        }
        let sl2 = slashes[2];
        let sl3 = slashes[3];
        let sl4 = slashes[4];
        let seg34 = path.substring_char(sl3, sl4);
        let seg23 = path.substring_char(sl2, sl3);
        if str_eq(seg34, "/mavenArtifacts") {
            let numseg = path.substring_char(sl3 + 1, n - 1);
            match parse_u32(numseg) {
                Option::Some(v) => {
                    let job = path.substring_char(5, sl2);
                    Ok(
                        Path::MavenArtifactRecord {
                            job_name: Name::UrlEncodedName(job.to_owned()),
                            number: BuildNumber::Number(v),
                            configuration: Option::None,
                        },
                    )
                },
                Option::None => Err(Error::MalformedPath { path: path.to_owned() }),
            }
        } else if str_eq(seg23, "/job") {
            let suffix = path.substring_char(sl2, n);
            match decode_relative(suffix) {
                Ok(inner) => {
                    let folder = path.substring_char(5, sl2);
                    Ok(
                        Path::InFolder {
                            folder_name: Name::UrlEncodedName(folder.to_owned()),
                            path: Box::new(inner),
                        },
                    )
                },
                Err(_) => Err(Error::MalformedPath { path: path.to_owned() }),
            }
        } else {
            let numseg = path.substring_char(sl3 + 1, n - 1);
            match parse_u32(numseg) {
                Option::Some(v) => {
                    let job = path.substring_char(5, sl2);
                    let cfg = path.substring_char(sl2 + 1, sl3);
                    Ok(
                        Path::Build {
                            job_name: Name::UrlEncodedName(job.to_owned()),
                            number: BuildNumber::Number(v),
                            configuration: Option::Some(Name::UrlEncodedName(cfg.to_owned())),
                        },
                    )
                },
                Option::None => Err(Error::MalformedPath { path: path.to_owned() }),
            }
        }
    } else if is_job && nsl == 6 {
        proof {
            reveal_strlit("/job");
            assert(first@ == path@.subrange(0, slashes@[1] as int));
            assert(first@.len() == sl[1]);
            assert(sl[1] == 4);
        }
        let sl2 = slashes[2];
        let sl3 = slashes[3];
        let sl4 = slashes[4];
        let seg23 = path.substring_char(sl2, sl3);
        if str_eq(seg23, "/job") {
            let suffix = path.substring_char(sl2, n);
            match decode_relative(suffix) {
                Ok(inner) => {
                    let folder = path.substring_char(5, sl2);
                    Ok(
                        Path::InFolder {
                            folder_name: Name::UrlEncodedName(folder.to_owned()),
                            path: Box::new(inner),
                        },
                    )
                },
                Err(_) => Err(Error::MalformedPath { path: path.to_owned() }),
            }
        } else {
            let numseg = path.substring_char(sl3 + 1, sl4);
            match parse_u32(numseg) {
                Option::Some(v) => {
                    let job = path.substring_char(5, sl2);
                    let cfg = path.substring_char(sl2 + 1, sl3);
                    Ok(
                        Path::MavenArtifactRecord {
                            job_name: Name::UrlEncodedName(job.to_owned()),
                            number: BuildNumber::Number(v),
                            configuration: Option::Some(Name::UrlEncodedName(cfg.to_owned())),
                        },
                    )
                },
                Option::None => Err(Error::MalformedPath { path: path.to_owned() }),
            }
        }
    } else if is_queue && nsl == 4 {
        let sl2 = slashes[2];
        let idseg = path.substring_char(sl2 + 1, n - 1);
        match parse_i32(idseg) {
            Option::Some(v) => Ok(Path::QueueItem { id: v }),
            Option::None => Err(Error::MalformedPath { path: path.to_owned() }),
        }
    } else {
        Ok(Path::Raw { path: path.to_owned() })
    }
}

/// Decodes a URL into the resource location it addresses: a leading
/// occurrence of `base_url` is stripped first, then the remaining
/// server-relative path is decoded by the grammar of [`spec_decode`].
pub fn url_to_path(base_url: &str, url: &str) -> (r: Result<Path, Error>)
    ensures
        match r {
            Ok(p) => spec_decode(spec_relative(base_url@, url@)) == Ok::<PathView, ()>(p@),
            Err(e) => spec_decode(spec_relative(base_url@, url@)) is Err
                && (e matches Error::MalformedPath {
                path: q,
            } && q@ == spec_relative(base_url@, url@)),
        },
{
    let bn = base_url.unicode_len();
    let un = url.unicode_len();
    if bn <= un {
        let head = url.substring_char(0, bn);
        if str_eq(head, base_url) {
            let rel = url.substring_char(bn, un);
            return decode_relative(rel);
        }
    }
    decode_relative(url)
}

/// Decodes the self-URL of a queue item, insisting that it addresses a
/// queue item: refreshing an item re-issues a request against this
/// path. A URL that decodes to any other resource kind is rejected as
/// invalid, carrying the kind that was expected.
pub fn queue_item_path(base_url: &str, url: &str) -> (r: Result<Path, Error>)
    ensures
        match r {
            Ok(p) => spec_decode(spec_relative(base_url@, url@)) == Ok::<PathView, ()>(p@)
                && p@ is QueueItem,
            Err(e) => match spec_decode(spec_relative(base_url@, url@)) {
                Ok(m) => !(m is QueueItem) && (e matches Error::InvalidUrl {
                    url: u,
                    expected: x,
                } && u@ == url@ && x == ExpectedType::QueueItem),
                Err(_) => e matches Error::MalformedPath {
                    path: q,
                } && q@ == spec_relative(base_url@, url@),
            },
        },
{
    match url_to_path(base_url, url) {
        Ok(p) => {
            if let Path::QueueItem { .. } = &p {
                Ok(p)
            } else {
                Err(
                    Error::InvalidUrl {
                        url: url.to_owned(),
                        expected: ExpectedType::QueueItem,
                    },
                )
            }
        },
        Err(e) => Err(e),
    }
}

/// Rendering is deterministic and idempotent: the rendered form is a
/// function of the location alone, so any two renderings of the same
/// location, on any two calls, are the same string.
pub proof fn lemma_render_deterministic(p: PathView, r1: Seq<char>, r2: Seq<char>)
    requires
        r1 == p.rendered(),
        r2 == p.rendered(),
    ensures
        r1 == r2,
{
}

/// Slash positions of a concatenation: those of the left part, then
/// those of the right part shifted by the left part's length.
proof fn lemma_slash_positions_concat(a: Seq<char>, b: Seq<char>)
    ensures
        slash_positions(a + b) == slash_positions(a) + slash_positions(b).map_values(
            |x: int| x + a.len(),
        ),
    decreases b.len(),
{
    if b.len() == 0 {
        assert(a + b =~= a);
        assert(slash_positions(a + b) =~= slash_positions(a) + slash_positions(b).map_values(
            |x: int| x + a.len(),
        ));
    } else {
        let ab = a + b;
        let db = b.drop_last();
        assert(ab.drop_last() =~= a + db);
        assert(ab.last() == b.last());
        lemma_slash_positions_concat(a, db);
        if b.last() == '/' {
            assert(slash_positions(b) == slash_positions(db) + seq![b.len() - 1]);
            assert(slash_positions(ab) == slash_positions(a + db) + seq![ab.len() - 1]);
            assert(slash_positions(b).map_values(|x: int| x + a.len()) =~= slash_positions(
                db,
            ).map_values(|x: int| x + a.len()) + seq![a.len() + b.len() - 1]);
            assert(slash_positions(ab) =~= slash_positions(a) + slash_positions(b).map_values(
                |x: int| x + a.len(),
            ));
        } else {
            assert(slash_positions(b) == slash_positions(db));
            assert(slash_positions(ab) == slash_positions(a + db));
        }
    }
}

/// A text without `/` contributes no slash positions.
proof fn lemma_slash_positions_slashless(x: Seq<char>)
    requires
        forall|i: int| 0 <= i < x.len() ==> x[i] != '/',
    ensures
        slash_positions(x) == Seq::<int>::empty(),
    decreases x.len(),
{
    if x.len() > 0 {
        assert(forall|i: int| 0 <= i < x.drop_last().len() ==> x.drop_last()[i] != '/');
        lemma_slash_positions_slashless(x.drop_last());
        assert(x.last() != '/');
    }
}

/// The slash positions of a single `/`.
proof fn lemma_sp_single_slash()
    ensures
        slash_positions(seq!['/']) == seq![0int],
{
    assert(slash_positions(Seq::<char>::empty()) == Seq::<int>::empty());
    assert(seq!['/'].drop_last() =~= Seq::<char>::empty());
    assert(seq!['/'].last() == '/');
    assert(slash_positions(seq!['/']) =~= seq![0int]);
}

/// The slash positions of the `/job/` prefix.
proof fn lemma_sp_job_prefix()
    ensures
        slash_positions(seq!['/', 'j', 'o', 'b', '/']) == seq![0int, 4],
{
    let p1 = seq!['/', 'j', 'o', 'b', '/'];
    let p01 = seq!['/'];
    let pjob = seq!['j', 'o', 'b'];
    assert(p1 =~= (p01 + pjob) + p01);
    lemma_sp_single_slash();
    lemma_slash_positions_slashless(pjob);
    lemma_slash_positions_concat(p01, pjob);
    lemma_slash_positions_concat(p01 + pjob, p01);
    assert(slash_positions(p01 + pjob) =~= seq![0int]);
    assert(slash_positions(p1) =~= seq![0int, 4]);
}

/// Round trip through a plain job: encoding a job and decoding the
/// result (with the trailing `/` the server appends to self-URLs)
/// reproduces the same location. The name must be a pre-encoded
/// segment content — no `/` inside.
pub proof fn lemma_job_round_trip(n: Seq<char>)
    requires
        forall|i: int| 0 <= i < n.len() ==> n[i] != '/',
    ensures
        ({
            let m = PathView::Job {
                name: NameView::UrlEncodedName(n),
                configuration: Option::None,
            };
            spec_decode(m.rendered() + seq!['/']) == Ok::<PathView, ()>(m)
        }),
{
    reveal_strlit("/job/");
    reveal_strlit("/job");
    reveal_strlit("/view");
    let m = PathView::Job { name: NameView::UrlEncodedName(n), configuration: Option::None };
    let p1 = seq!['/', 'j', 'o', 'b', '/'];
    assert("/job/"@ =~= p1);
    let ln = n.len() as int;
    let s = p1 + n + seq!['/'];
    assert(m.rendered() + seq!['/'] =~= s);
    lemma_sp_job_prefix();
    lemma_sp_single_slash();
    lemma_slash_positions_slashless(n);
    lemma_slash_positions_concat(p1, n);
    assert(slash_positions(p1 + n) =~= seq![0int, 4]);
    lemma_slash_positions_concat(p1 + n, seq!['/']);
    assert(s =~= (p1 + n) + seq!['/']);
    assert(slash_positions(s) =~= seq![0int, 4, 5 + ln]) by {
        assert(seq![0int].map_values(|x: int| x + (p1 + n).len()) =~= seq![5 + ln]);
    }
    assert(s.subrange(0, 4) =~= "/job"@);
    assert(s.subrange(0, 4) != "/view"@);
    assert(s.subrange(5, s.len() - 1) =~= n);
    assert(spec_decode(s) == Ok::<PathView, ()>(m));
}

/// Round trip through a view: encoding a view and decoding the result
/// (with the trailing `/` the server appends to self-URLs) reproduces
/// the same location. The name must be a pre-encoded segment content.
pub proof fn lemma_view_round_trip(n: Seq<char>)
    requires
        forall|i: int| 0 <= i < n.len() ==> n[i] != '/',
    ensures
        ({
            let m = PathView::View { name: NameView::UrlEncodedName(n) };
            spec_decode(m.rendered() + seq!['/']) == Ok::<PathView, ()>(m)
        }),
{
    reveal_strlit("/view/");
    reveal_strlit("/view");
    let m = PathView::View { name: NameView::UrlEncodedName(n) };
    let v1 = seq!['/', 'v', 'i', 'e', 'w', '/'];
    assert("/view/"@ =~= v1);
    let ln = n.len() as int;
    let s = v1 + n + seq!['/'];
    assert(m.rendered() + seq!['/'] =~= s);
    lemma_sp_single_slash();
    assert(slash_positions(v1) =~= seq![0int, 5]) by {
        let p01 = seq!['/'];
        let pview = seq!['v', 'i', 'e', 'w'];
        assert(v1 =~= (p01 + pview) + p01);
        lemma_slash_positions_slashless(pview);
        lemma_slash_positions_concat(p01, pview);
        lemma_slash_positions_concat(p01 + pview, p01);
        assert(slash_positions(p01 + pview) =~= seq![0int]);
    }
    lemma_slash_positions_slashless(n);
    lemma_slash_positions_concat(v1, n);
    assert(slash_positions(v1 + n) =~= seq![0int, 5]);
    lemma_slash_positions_concat(v1 + n, seq!['/']);
    assert(s =~= (v1 + n) + seq!['/']);
    assert(slash_positions(s) =~= seq![0int, 5, 6 + ln]) by {
        assert(seq![0int].map_values(|x: int| x + (v1 + n).len()) =~= seq![6 + ln]);
    }
    assert(s.subrange(0, 5) =~= "/view"@);
    assert(s.subrange(6, s.len() - 1) =~= n);
    assert(spec_decode(s) == Ok::<PathView, ()>(m));
}

/// Round trip through a folder: encoding a job nested in a folder and
/// decoding the result (with the trailing `/` the server appends to
/// self-URLs) reproduces the same location. The folder and job names
/// must be pre-encoded segment contents — no `/` inside — and the job
/// name must not be the reserved segment `mavenArtifacts`, which the
/// decoder claims for artifact records.
pub proof fn lemma_folder_round_trip(f: Seq<char>, n: Seq<char>)
    requires
        forall|i: int| 0 <= i < f.len() ==> f[i] != '/',
        forall|i: int| 0 <= i < n.len() ==> n[i] != '/',
        n != "mavenArtifacts"@,
    ensures
        ({
            let m = PathView::InFolder {
                folder_name: NameView::UrlEncodedName(f),
                path: Box::new(
                    PathView::Job {
                        name: NameView::UrlEncodedName(n),
                        configuration: Option::None,
                    },
                ),
            };
            spec_decode(m.rendered() + seq!['/']) == Ok::<PathView, ()>(m)
        }),
{
    reveal_strlit("/job/");
    reveal_strlit("/job");
    reveal_strlit("/view");
    reveal_strlit("/queue");
    reveal_strlit("/mavenArtifacts");
    reveal_strlit("mavenArtifacts");
    let m = PathView::InFolder {
        folder_name: NameView::UrlEncodedName(f),
        path: Box::new(
            PathView::Job { name: NameView::UrlEncodedName(n), configuration: Option::None },
        ),
    };
    let p1 = seq!['/', 'j', 'o', 'b', '/'];
    assert("/job/"@ =~= p1);
    let lf = f.len() as int;
    let ln = n.len() as int;
    let suffix = p1 + n + seq!['/'];
    let s = p1 + f + suffix;
    assert(PathView::Job {
        name: NameView::UrlEncodedName(n),
        configuration: Option::None,
    }.rendered() == "/job/"@ + n);
    assert(m.rendered() == "/job/"@ + f + ("/job/"@ + n));
    assert(m.rendered() + seq!['/'] =~= s);

    // slash positions of the suffix and of the whole path
    lemma_sp_single_slash();
    lemma_sp_job_prefix();
    lemma_slash_positions_slashless(f);
    lemma_slash_positions_slashless(n);
    assert(slash_positions(p1 + n) =~= seq![0int, 4]) by {
        lemma_slash_positions_concat(p1, n);
    }
    assert(slash_positions(suffix) =~= seq![0int, 4, 5 + ln]) by {
        lemma_slash_positions_concat(p1 + n, seq!['/']);
        assert(suffix =~= (p1 + n) + seq!['/']);
        assert(seq![0int].map_values(|x: int| x + (p1 + n).len()) =~= seq![5 + ln]);
    }
    assert(slash_positions(p1 + f) =~= seq![0int, 4]) by {
        lemma_slash_positions_concat(p1, f);
    }
    assert(slash_positions(s) =~= seq![0int, 4, 5 + lf, 9 + lf, 10 + lf + ln]) by {
        lemma_slash_positions_concat(p1 + f, suffix);
        assert(seq![0int, 4, 5 + ln].map_values(|x: int| x + (p1 + f).len()) =~= seq![
            5 + lf,
            9 + lf,
            10 + lf + ln,
        ]);
    }

    // the decoder takes the folder branch of the five-slash job rule
    let sl = slash_positions(s);
    assert(s.len() == 11 + lf + ln);
    assert(s.subrange(0, 4) =~= "/job"@);
    assert(s.subrange(0, 4) != "/view"@ && s.subrange(0, 4) != "/queue"@);
    assert(s.subrange(sl[3], sl[4]) =~= seq!['/'] + n) by {
        assert(forall|j: int| 0 <= j < 1 + ln ==> s[9 + lf + j] == (seq!['/'] + n)[j]);
    }
    assert(s.subrange(sl[3], sl[4]) != "/mavenArtifacts"@) by {
        if s.subrange(sl[3], sl[4]) == "/mavenArtifacts"@ {
            assert((seq!['/'] + n).len() == 15);
            assert(n =~= "mavenArtifacts"@) by {
                assert(forall|j: int|
                    0 <= j < 14 ==> n[j] == (seq!['/'] + n)[j + 1] && (seq!['/'] + n)[j + 1]
                        == "/mavenArtifacts"@[j + 1]);
                assert(forall|j: int| 0 <= j < 14 ==> "/mavenArtifacts"@[j + 1]
                    == "mavenArtifacts"@[j]);
            }
        }
    }
    assert(s.subrange(sl[2], sl[3]) =~= "/job"@) by {
        assert(forall|j: int| 0 <= j < 4 ==> s[5 + lf + j] == p1[j]);
    }
    assert(s.subrange(5, sl[2]) =~= f);
    assert(s.subrange(sl[2], s.len() as int) =~= suffix);

    // the nested path decodes as the plain job rule
    lemma_job_round_trip(n);
    assert(PathView::Job {
        name: NameView::UrlEncodedName(n),
        configuration: Option::None,
    }.rendered() + seq!['/'] =~= suffix);
    assert(spec_decode(suffix) == Ok::<PathView, ()>(
        PathView::Job { name: NameView::UrlEncodedName(n), configuration: Option::None },
    ));
    assert(spec_decode(s) == Ok::<PathView, ()>(m));
}

/// Round trip through a build: encoding a build of a job by its ordinal
/// and decoding the result (with the trailing `/` the server appends to
/// self-URLs) reproduces the same location. The job name must be a
/// pre-encoded segment content — no `/` inside.
pub proof fn lemma_build_round_trip(j: Seq<char>, v: u32)
    requires
        forall|i: int| 0 <= i < j.len() ==> j[i] != '/',
    ensures
        ({
            let m = PathView::Build {
                job_name: NameView::UrlEncodedName(j),
                number: BuildNumber::Number(v),
                configuration: Option::None,
            };
            spec_decode(m.rendered() + seq!['/']) == Ok::<PathView, ()>(m)
        }),
{
    reveal_strlit("/job/");
    reveal_strlit("/job");
    reveal_strlit("/view");
    reveal_strlit("/");
    let m = PathView::Build {
        job_name: NameView::UrlEncodedName(j),
        number: BuildNumber::Number(v),
        configuration: Option::None,
    };
    let p1 = seq!['/', 'j', 'o', 'b', '/'];
    assert("/job/"@ =~= p1);
    assert("/"@ =~= seq!['/']);
    let d = dec_str(v as nat);
    crate::text::lemma_dec_str_digits(v as nat);
    crate::text::lemma_dec_val_dec_str(v as nat);
    let lj = j.len() as int;
    let ld = d.len() as int;
    let s = p1 + j + seq!['/'] + d + seq!['/'];
    assert(m.rendered() == "/job/"@ + j + "/"@ + d);
    assert(m.rendered() + seq!['/'] =~= s);
    lemma_sp_single_slash();
    lemma_sp_job_prefix();
    lemma_slash_positions_slashless(j);
    assert(forall|i: int| 0 <= i < d.len() ==> d[i] != '/');
    lemma_slash_positions_slashless(d);
    lemma_slash_positions_concat(p1, j);
    assert(slash_positions(p1 + j) =~= seq![0int, 4]);
    lemma_slash_positions_concat(p1 + j, seq!['/']);
    assert(slash_positions(p1 + j + seq!['/']) =~= seq![0int, 4, 5 + lj]) by {
        assert(seq![0int].map_values(|x: int| x + (p1 + j).len()) =~= seq![5 + lj]);
    }
    lemma_slash_positions_concat(p1 + j + seq!['/'], d);
    assert(slash_positions(p1 + j + seq!['/'] + d) =~= seq![0int, 4, 5 + lj]);
    lemma_slash_positions_concat(p1 + j + seq!['/'] + d, seq!['/']);
    assert(slash_positions(s) =~= seq![0int, 4, 5 + lj, 6 + lj + ld]) by {
        assert(seq![0int].map_values(|x: int| x + (p1 + j + seq!['/'] + d).len()) =~= seq![
            6 + lj + ld,
        ]);
    }
    let sl = slash_positions(s);
    assert(s.len() == 7 + lj + ld);
    assert(s.subrange(0, 4) =~= "/job"@);
    assert(s.subrange(0, 4) != "/view"@);
    let last = s.subrange(sl[2] + 1, s.len() - 1);
    assert(last =~= d);
    assert(is_u32_numeral(d)) by {
        assert(crate::text::is_digit(d[0]));
        assert(d[0] != '+');
        assert(crate::text::unsigned_digits(d) == d);
    }
    assert(u32_numeral_val(d) == v);
    assert(s.subrange(5, sl[2]) =~= j);
    assert(spec_decode(s) == Ok::<PathView, ()>(m));
}

/// Round trip through a job configuration: encoding a job with a
/// configuration and decoding the result (with the trailing `/` the
/// server appends to self-URLs) reproduces the same location. Both
/// names must be pre-encoded segment contents, and the configuration
/// name must not read as a build number — a purely numeric
/// configuration decodes as a build, the grammar's own ambiguity.
pub proof fn lemma_job_config_round_trip(n: Seq<char>, c: Seq<char>)
    requires
        forall|i: int| 0 <= i < n.len() ==> n[i] != '/',
        forall|i: int| 0 <= i < c.len() ==> c[i] != '/',
        !is_u32_numeral(c),
    ensures
        ({
            let m = PathView::Job {
                name: NameView::UrlEncodedName(n),
                configuration: Option::Some(NameView::UrlEncodedName(c)),
            };
            spec_decode(m.rendered() + seq!['/']) == Ok::<PathView, ()>(m)
        }),
{
    reveal_strlit("/job/");
    reveal_strlit("/job");
    reveal_strlit("/view");
    reveal_strlit("/");
    let m = PathView::Job {
        name: NameView::UrlEncodedName(n),
        configuration: Option::Some(NameView::UrlEncodedName(c)),
    };
    let p1 = seq!['/', 'j', 'o', 'b', '/'];
    assert("/job/"@ =~= p1);
    assert("/"@ =~= seq!['/']);
    let ln = n.len() as int;
    let lc = c.len() as int;
    let s = p1 + n + seq!['/'] + c + seq!['/'];
    assert(m.rendered() == "/job/"@ + n + "/"@ + c);
    assert(m.rendered() + seq!['/'] =~= s);
    lemma_sp_single_slash();
    lemma_sp_job_prefix();
    lemma_slash_positions_slashless(n);
    lemma_slash_positions_slashless(c);
    lemma_slash_positions_concat(p1, n);
    assert(slash_positions(p1 + n) =~= seq![0int, 4]);
    lemma_slash_positions_concat(p1 + n, seq!['/']);
    assert(slash_positions(p1 + n + seq!['/']) =~= seq![0int, 4, 5 + ln]) by {
        assert(seq![0int].map_values(|x: int| x + (p1 + n).len()) =~= seq![5 + ln]);
    }
    lemma_slash_positions_concat(p1 + n + seq!['/'], c);
    assert(slash_positions(p1 + n + seq!['/'] + c) =~= seq![0int, 4, 5 + ln]);
    lemma_slash_positions_concat(p1 + n + seq!['/'] + c, seq!['/']);
    assert(slash_positions(s) =~= seq![0int, 4, 5 + ln, 6 + ln + lc]) by {
        assert(seq![0int].map_values(|x: int| x + (p1 + n + seq!['/'] + c).len()) =~= seq![
            6 + ln + lc,
        ]);
    }
    let sl = slash_positions(s);
    assert(s.len() == 7 + ln + lc);
    assert(s.subrange(0, 4) =~= "/job"@);
    assert(s.subrange(0, 4) != "/view"@);
    assert(s.subrange(sl[2] + 1, s.len() - 1) =~= c);
    assert(s.subrange(5, sl[2]) =~= n);
    assert(spec_decode(s) == Ok::<PathView, ()>(m));
}

/// Round trip through a configured build: encoding a build of a job
/// configuration and decoding the result (with the trailing `/` the
/// server appends to self-URLs) reproduces the same location. Both
/// names must be pre-encoded segment contents, and the configuration
/// name must not be the literal `job` — that shape reads as a folder.
pub proof fn lemma_build_config_round_trip(j: Seq<char>, c: Seq<char>, v: u32)
    requires
        forall|i: int| 0 <= i < j.len() ==> j[i] != '/',
        forall|i: int| 0 <= i < c.len() ==> c[i] != '/',
        c != "job"@,
    ensures
        ({
            let m = PathView::Build {
                job_name: NameView::UrlEncodedName(j),
                number: BuildNumber::Number(v),
                configuration: Option::Some(NameView::UrlEncodedName(c)),
            };
            spec_decode(m.rendered() + seq!['/']) == Ok::<PathView, ()>(m)
        }),
{
    reveal_strlit("/job/");
    reveal_strlit("/job");
    reveal_strlit("/view");
    reveal_strlit("/mavenArtifacts");
    reveal_strlit("/");
    let m = PathView::Build {
        job_name: NameView::UrlEncodedName(j),
        number: BuildNumber::Number(v),
        configuration: Option::Some(NameView::UrlEncodedName(c)),
    };
    let p1 = seq!['/', 'j', 'o', 'b', '/'];
    assert("/job/"@ =~= p1);
    assert("/"@ =~= seq!['/']);
    let d = dec_str(v as nat);
    crate::text::lemma_dec_str_digits(v as nat);
    crate::text::lemma_dec_val_dec_str(v as nat);
    let lj = j.len() as int;
    let lc = c.len() as int;
    let ld = d.len() as int;
    let s = p1 + j + seq!['/'] + c + seq!['/'] + d + seq!['/'];
    assert(m.rendered() == "/job/"@ + j + "/"@ + c + "/"@ + d);
    assert(m.rendered() + seq!['/'] =~= s);
    lemma_sp_single_slash();
    lemma_sp_job_prefix();
    lemma_slash_positions_slashless(j);
    lemma_slash_positions_slashless(c);
    assert(forall|i: int| 0 <= i < d.len() ==> d[i] != '/');
    lemma_slash_positions_slashless(d);
    lemma_slash_positions_concat(p1, j);
    assert(slash_positions(p1 + j) =~= seq![0int, 4]);
    lemma_slash_positions_concat(p1 + j, seq!['/']);
    assert(slash_positions(p1 + j + seq!['/']) =~= seq![0int, 4, 5 + lj]) by {
        assert(seq![0int].map_values(|x: int| x + (p1 + j).len()) =~= seq![5 + lj]);
    }
    lemma_slash_positions_concat(p1 + j + seq!['/'], c);
    assert(slash_positions(p1 + j + seq!['/'] + c) =~= seq![0int, 4, 5 + lj]);
    lemma_slash_positions_concat(p1 + j + seq!['/'] + c, seq!['/']);
    assert(slash_positions(p1 + j + seq!['/'] + c + seq!['/']) =~= seq![
        0int,
        4,
        5 + lj,
        6 + lj + lc,
    ]) by {
        assert(seq![0int].map_values(|x: int| x + (p1 + j + seq!['/'] + c).len()) =~= seq![
            6 + lj + lc,
        ]);
    }
    lemma_slash_positions_concat(p1 + j + seq!['/'] + c + seq!['/'], d);
    assert(slash_positions(p1 + j + seq!['/'] + c + seq!['/'] + d) =~= seq![
        0int,
        4,
        5 + lj,
        6 + lj + lc,
    ]);
    lemma_slash_positions_concat(p1 + j + seq!['/'] + c + seq!['/'] + d, seq!['/']);
    assert(slash_positions(s) =~= seq![0int, 4, 5 + lj, 6 + lj + lc, 7 + lj + lc + ld]) by {
        assert(seq![0int].map_values(
            |x: int| x + (p1 + j + seq!['/'] + c + seq!['/'] + d).len(),
        ) =~= seq![7 + lj + lc + ld]);
    }
    let sl = slash_positions(s);
    assert(s.len() == 8 + lj + lc + ld);
    assert(s.subrange(0, 4) =~= "/job"@);
    assert(s.subrange(0, 4) != "/view"@);
    assert(s.subrange(sl[3], sl[4]) =~= seq!['/'] + d) by {
        assert(forall|i: int| 0 <= i < 1 + ld ==> s[6 + lj + lc + i] == (seq!['/'] + d)[i]);
    }
    assert(s.subrange(sl[3], sl[4]) != "/mavenArtifacts"@) by {
        if s.subrange(sl[3], sl[4]) == "/mavenArtifacts"@ {
            assert((seq!['/'] + d)[1] == d[0]);
            assert(crate::text::is_digit(d[0]));
            assert("/mavenArtifacts"@[1] == 'm');
        }
    }
    assert(s.subrange(sl[2], sl[3]) =~= seq!['/'] + c) by {
        assert(forall|i: int| 0 <= i < 1 + lc ==> s[5 + lj + i] == (seq!['/'] + c)[i]);
    }
    assert(s.subrange(sl[2], sl[3]) != "/job"@) by {
        if s.subrange(sl[2], sl[3]) == "/job"@ {
            assert(c =~= "job"@) by {
                assert(forall|i: int| 0 <= i < 3 ==> c[i] == (seq!['/'] + c)[i + 1]);
                assert("/job"@[1] == 'j' && "/job"@[2] == 'o' && "/job"@[3] == 'b');
                reveal_strlit("job");
                assert("job"@[0] == 'j' && "job"@[1] == 'o' && "job"@[2] == 'b');
            }
            reveal_strlit("job");
        }
    }
    let numseg = s.subrange(sl[3] + 1, s.len() - 1);
    assert(numseg =~= d);
    assert(is_u32_numeral(d)) by {
        assert(crate::text::is_digit(d[0]));
        assert(d[0] != '+');
        assert(crate::text::unsigned_digits(d) == d);
    }
    assert(u32_numeral_val(d) == v);
    assert(s.subrange(5, sl[2]) =~= j);
    assert(s.subrange(sl[2] + 1, sl[3]) =~= c);
    assert(spec_decode(s) == Ok::<PathView, ()>(m));
}

/// Round trip through a queue item: encoding a queue item by its
/// identifier and decoding the result (with the trailing `/` the
/// server appends to self-URLs) reproduces the same location.
pub proof fn lemma_queue_item_round_trip(id: i32)
    ensures
        ({
            let m = PathView::QueueItem { id };
            spec_decode(m.rendered() + seq!['/']) == Ok::<PathView, ()>(m)
        }),
{
    reveal_strlit("/queue/item/");
    reveal_strlit("/queue");
    reveal_strlit("/view");
    reveal_strlit("/job");
    let m = PathView::QueueItem { id };
    let q1 = seq!['/', 'q', 'u', 'e', 'u', 'e', '/', 'i', 't', 'e', 'm', '/'];
    assert("/queue/item/"@ =~= q1);
    let mag: nat = if id < 0 {
        (-(id as int)) as nat
    } else {
        id as nat
    };
    let num: Seq<char> = if id < 0 {
        seq!['-'] + dec_str(mag)
    } else {
        dec_str(mag)
    };
    crate::text::lemma_dec_str_digits(mag);
    crate::text::lemma_dec_val_dec_str(mag);
    let lnum = num.len() as int;
    let s = q1 + num + seq!['/'];
    assert(m.rendered() + seq!['/'] =~= s);
    lemma_sp_single_slash();
    assert(slash_positions(q1) =~= seq![0int, 6, 11]) by {
        let p01 = seq!['/'];
        let pqueue = seq!['q', 'u', 'e', 'u', 'e'];
        let pitem = seq!['i', 't', 'e', 'm'];
        assert(q1 =~= ((((p01 + pqueue) + p01) + pitem) + p01));
        lemma_slash_positions_slashless(pqueue);
        lemma_slash_positions_slashless(pitem);
        lemma_slash_positions_concat(p01, pqueue);
        assert(slash_positions(p01 + pqueue) =~= seq![0int]);
        lemma_slash_positions_concat(p01 + pqueue, p01);
        assert(slash_positions((p01 + pqueue) + p01) =~= seq![0int, 6]);
        lemma_slash_positions_concat((p01 + pqueue) + p01, pitem);
        assert(slash_positions(((p01 + pqueue) + p01) + pitem) =~= seq![0int, 6]);
        lemma_slash_positions_concat(((p01 + pqueue) + p01) + pitem, p01);
    }
    assert(forall|i: int| 0 <= i < num.len() ==> num[i] != '/') by {
        assert(forall|i: int|
            0 <= i < dec_str(mag).len() ==> crate::text::is_digit(#[trigger] dec_str(mag)[i]));
    }
    lemma_slash_positions_slashless(num);
    lemma_slash_positions_concat(q1, num);
    assert(slash_positions(q1 + num) =~= seq![0int, 6, 11]);
    lemma_slash_positions_concat(q1 + num, seq!['/']);
    assert(slash_positions(s) =~= seq![0int, 6, 11, 12 + lnum]) by {
        assert(seq![0int].map_values(|x: int| x + (q1 + num).len()) =~= seq![12 + lnum]);
    }
    let sl = slash_positions(s);
    assert(s.len() == 13 + lnum);
    assert(s.subrange(0, 6) =~= "/queue"@);
    assert(s.subrange(0, 6) != "/view"@ && s.subrange(0, 6) != "/job"@);
    let idseg = s.subrange(sl[2] + 1, s.len() - 1);
    assert(idseg =~= num);
    assert(is_i32_numeral(num) && i32_numeral_val(num) == id) by {
        if id < 0 {
            assert(num[0] == '-');
            assert(crate::text::has_sign(num));
            assert(crate::text::signed_digits(num) =~= dec_str(mag));
            assert(crate::text::is_negative_numeral(num));
            assert(mag <= 0x8000_0000);
        } else {
            assert(crate::text::is_digit(num[0]));
            assert(num[0] != '+' && num[0] != '-');
            assert(!crate::text::has_sign(num));
            assert(crate::text::signed_digits(num) == num);
            assert(!crate::text::is_negative_numeral(num));
            assert(mag <= 0x7fff_ffff);
        }
    }
    assert(spec_decode(s) == Ok::<PathView, ()>(m));
}

} // verus!
