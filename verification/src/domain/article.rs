//! Article domain model and slug derivation.

use vstd::prelude::*;
use vstd::string::*;
use crate::error::AppError;
use crate::text::{
    ascii_lower, chars_of, is_ascii_alnum, is_ascii_char, is_ascii_upper, lowercase_chars, same_text,
    string_from_chars, unicode_lowercase,
};

verus! {

/// Publication status of an [`Article`].
#[derive(Debug, Clone, Copy, PartialEq, Eq, Structural)]
pub enum ArticleStatus {
    /// Work in progress, invisible to Visitors.
    Draft,
    /// Visible to Visitors.
    Published,
}

impl ArticleStatus {
    /// The storage representation of a status.
    pub open spec fn text(self) -> Seq<char> {
        match self {
            ArticleStatus::Draft => "draft"@,
            ArticleStatus::Published => "published"@,
        }
    }

    /// Storage representation.
    pub fn as_str(self) -> (r: &'static str)
        ensures
            r@ == self.text(),
    {
        match self {
            ArticleStatus::Draft => "draft",
            ArticleStatus::Published => "published",
        }
    }

    /// Parse from the storage representation.
    ///
    /// # Errors
    /// Returns `AppError::Internal` for unknown values.
    pub fn parse(value: &str) -> (r: Result<ArticleStatus, AppError>)
        ensures
            match status_named(value@) {
                Some(s) => r == Ok::<ArticleStatus, AppError>(s),
                None => r matches Err(AppError::Internal(m)) && m@ == "unknown article status: "@ + value@,
            },
    {
        broadcast use vstd::string::group_string_axioms;
        proof {
            reveal_strlit("draft");
            reveal_strlit("published");
            assert("draft"@.len() != "published"@.len());
        }
        if same_text(value, "draft") {
            Ok(ArticleStatus::Draft)
        } else if same_text(value, "published") {
            Ok(ArticleStatus::Published)
        } else {
            Err(AppError::Internal("unknown article status: ".to_string().concat(value)))
        }
    }
}

/// The status that a stored status text names, if any.
pub open spec fn status_named(text: Seq<char>) -> Option<ArticleStatus> {
    if text == "draft"@ {
        Some(ArticleStatus::Draft)
    } else if text == "published"@ {
        Some(ArticleStatus::Published)
    } else {
        None
    }
}

/// Parsing the storage form of a status gives the status again, and a text
/// parses to a status only when it is that status's storage form.
pub proof fn law_status_roundtrip(s: ArticleStatus, text: Seq<char>)
    ensures
        status_named(s.text()) == Some(s),
        status_named(text) == Some(s) ==> text == s.text(),
{
    reveal_strlit("draft");
    reveal_strlit("published");
    assert("draft"@.len() != "published"@.len());
}

/// The single content entity of the blog.
#[derive(Debug, Clone, PartialEq, Eq)]
pub struct Article {
    /// Database id.
    pub id: i64,
    /// Display title.
    pub title: String,
    /// Unique URL slug; public URL is `/posts/{slug}`.
    pub slug: String,
    /// Markdown source (rendering happens in the browser).
    pub markdown: String,
    /// Publication status.
    pub status: ArticleStatus,
    /// UTC creation timestamp `YYYY-MM-DD HH:MM:SS`.
    pub created_at: String,
    /// UTC last-update timestamp.
    pub updated_at: String,
    /// UTC first-publish timestamp; `None` while never published.
    pub published_at: Option<String>,
}

/// The lower-case mapping of one character: ASCII lower-casing for an ASCII
/// character, the full Unicode mapping otherwise (the two agree on ASCII).
pub open spec fn lower_of(c: char) -> Seq<char> {
    if is_ascii_char(c) {
        seq![ascii_lower(c)]
    } else {
        unicode_lowercase(c)
    }
}

/// The lower-cased character stream of a title: each character replaced by its
/// lower-case mapping.
pub open spec fn lowered(cs: Seq<char>) -> Seq<char>
    decreases cs.len(),
{
    if cs.len() == 0 {
        Seq::empty()
    } else {
        lowered(cs.drop_last()) + lower_of(cs.last())
    }
}

/// One step of slug building: an ASCII letter or digit is appended (after a single
/// dash when a separator was seen and the slug is not empty); anything else marks
/// a pending separator.
pub open spec fn slug_step(state: (Seq<char>, bool), c: char) -> (Seq<char>, bool) {
    if is_ascii_alnum(c) {
        let base = if state.1 && state.0.len() > 0 { state.0.push('-') } else { state.0 };
        (base.push(c), false)
    } else {
        (state.0, true)
    }
}

/// The slug built from a character stream, with the pending-separator flag.
pub open spec fn slug_scan(cs: Seq<char>) -> (Seq<char>, bool)
    decreases cs.len(),
{
    if cs.len() == 0 {
        (Seq::empty(), false)
    } else {
        slug_step(slug_scan(cs.drop_last()), cs.last())
    }
}

/// The slug of a title.
pub open spec fn slug_of(title: Seq<char>) -> Seq<char> {
    slug_scan(lowered(title)).0
}

fn is_ascii_alnum_char(c: char) -> (r: bool)
    ensures
        r == is_ascii_alnum(c),
{
    ('0' <= c && c <= '9') || ('a' <= c && c <= 'z') || ('A' <= c && c <= 'Z')
}

/// Derive a URL slug from a title: lowercase ASCII alphanumeric runs joined by
/// single dashes. Empty when the title has no ASCII alphanumeric characters.
pub fn slugify(title: &str) -> (slug: String)
    ensures
        slug@ == slug_of(title@),
{
    let cs = chars_of(title);
    let mut out: Vec<char> = Vec::new();
    let mut pending = false;
    let mut i: usize = 0;
    while i < cs.len()
        invariant
            i <= cs.len(),
            (out@, pending) == slug_scan(lowered(cs@.take(i as int))),
        decreases cs.len() - i,
    {
        let lc = lowercase_chars(cs[i]);
        let ghost prefix = lowered(cs@.take(i as int));
        let mut j: usize = 0;
        assert(prefix + lc@.take(0) == prefix);
        while j < lc.len()
            invariant
                j <= lc.len(),
                (out@, pending) == slug_scan(prefix + lc@.take(j as int)),
            decreases lc.len() - j,
        {
            let c = lc[j];
            let ghost before = prefix + lc@.take(j as int);
            if is_ascii_alnum_char(c) {
                if pending && out.len() > 0 {
                    out.push('-');
                }
                pending = false;
                out.push(c);
            } else {
                pending = true;
            }
            assert(prefix + lc@.take(j as int + 1) == before.push(c));
            assert(before.push(c).drop_last() == before);
            j = j + 1;
        }
        assert(lc@.take(lc.len() as int) == lc@);
        assert(cs@.take(i as int + 1).drop_last() == cs@.take(i as int));
        assert(cs@.take(i as int + 1).last() == cs@[i as int]);
        i = i + 1;
    }
    assert(cs@.take(cs.len() as int) == cs@);
    string_from_chars(&out)
}

/// A well-formed slug: ASCII letters, digits and dashes, starting and ending with
/// a letter or digit, never two dashes in a row.
pub open spec fn slug_shaped(s: Seq<char>) -> bool {
    &&& forall|i: int| 0 <= i < s.len() ==> is_ascii_alnum(#[trigger] s[i]) || s[i] == '-'
    &&& s.len() > 0 ==> is_ascii_alnum(s[0]) && is_ascii_alnum(s.last())
    &&& forall|i: int| #![trigger s[i]] 0 <= i < s.len() - 1 && s[i] == '-' ==> s[i + 1] != '-'
}

/// No ASCII upper-case letter occurs.
pub open spec fn no_upper(s: Seq<char>) -> bool {
    forall|i: int| 0 <= i < s.len() ==> !is_ascii_upper(#[trigger] s[i])
}

/// The ASCII letters and digits of a character stream, in order.
pub open spec fn alnum_only(cs: Seq<char>) -> Seq<char>
    decreases cs.len(),
{
    if cs.len() == 0 {
        Seq::empty()
    } else if is_ascii_alnum(cs.last()) {
        alnum_only(cs.drop_last()).push(cs.last())
    } else {
        alnum_only(cs.drop_last())
    }
}

proof fn lemma_alnum_only_push(cs: Seq<char>, c: char)
    ensures
        alnum_only(cs.push(c)) == if is_ascii_alnum(c) { alnum_only(cs).push(c) } else { alnum_only(cs) },
{
    assert(cs.push(c).drop_last() == cs);
}

proof fn lemma_alnum_only_empty(cs: Seq<char>)
    ensures
        alnum_only(cs).len() == 0 <==> forall|i: int| 0 <= i < cs.len() ==> !is_ascii_alnum(#[trigger] cs[i]),
    decreases cs.len(),
{
    if cs.len() > 0 {
        let prev = cs.drop_last();
        lemma_alnum_only_empty(prev);
        if alnum_only(cs).len() == 0 {
            assert(!is_ascii_alnum(cs.last()));
            assert forall|i: int| 0 <= i < cs.len() implies !is_ascii_alnum(#[trigger] cs[i]) by {
                if i < cs.len() - 1 {
                    assert(cs[i] == prev[i]);
                }
            }
        } else if forall|i: int| 0 <= i < cs.len() ==> !is_ascii_alnum(#[trigger] cs[i]) {
            assert(!is_ascii_alnum(cs[cs.len() - 1]));
            assert forall|i: int| 0 <= i < prev.len() implies !is_ascii_alnum(#[trigger] prev[i]) by {
                assert(prev[i] == cs[i]);
            }
        }
    }
}

proof fn lemma_scan(cs: Seq<char>)
    ensures
        slug_shaped(slug_scan(cs).0),
        alnum_only(slug_scan(cs).0) == alnum_only(cs),
        no_upper(cs) ==> no_upper(slug_scan(cs).0),
    decreases cs.len(),
{
    if cs.len() > 0 {
        let prev = cs.drop_last();
        lemma_scan(prev);
        let s = slug_scan(prev).0;
        let p = slug_scan(prev).1;
        let c = cs.last();
        assert(slug_scan(cs) == slug_step((s, p), c));
        if no_upper(cs) {
            assert forall|i: int| 0 <= i < prev.len() implies !is_ascii_upper(#[trigger] prev[i]) by {
                assert(prev[i] == cs[i]);
            }
            assert(!is_ascii_upper(cs[cs.len() - 1]));
        }
        lemma_alnum_only_push(prev, c);
        assert(cs == prev.push(c));
        if is_ascii_alnum(c) {
            let base = if p && s.len() > 0 { s.push('-') } else { s };
            lemma_alnum_only_push(s, '-');
            lemma_alnum_only_push(base, c);
            let r = base.push(c);
            assert(r.last() == c);
            if p && s.len() > 0 {
                assert(r[s.len() as int] == '-');
                assert forall|i: int| 0 <= i < r.len() implies is_ascii_alnum(#[trigger] r[i]) || r[i] == '-' by {
                    if i < s.len() {
                        assert(r[i] == s[i]);
                    }
                }
                assert forall|i: int| #![trigger r[i]] 0 <= i < r.len() - 1 && r[i] == '-' implies r[i + 1] != '-' by {
                    if i < s.len() - 1 {
                        assert(r[i] == s[i]);
                        assert(r[i + 1] == s[i + 1]);
                    } else if i == s.len() - 1 {
                        assert(r[i] == s.last());
                    }
                }
                assert(r[0] == s[0]);
                if no_upper(cs) {
                    assert forall|i: int| 0 <= i < r.len() implies !is_ascii_upper(#[trigger] r[i]) by {
                        if i < s.len() {
                            assert(r[i] == s[i]);
                        }
                    }
                }
            } else {
                assert forall|i: int| 0 <= i < r.len() implies is_ascii_alnum(#[trigger] r[i]) || r[i] == '-' by {
                    if i < s.len() {
                        assert(r[i] == s[i]);
                    }
                }
                assert forall|i: int| #![trigger r[i]] 0 <= i < r.len() - 1 && r[i] == '-' implies r[i + 1] != '-' by {
                    if i < s.len() - 1 {
                        assert(r[i] == s[i]);
                        assert(r[i + 1] == s[i + 1]);
                    } else if i == s.len() - 1 {
                        assert(r[i] == s.last());
                    }
                }
                if s.len() > 0 {
                    assert(r[0] == s[0]);
                }
                if no_upper(cs) {
                    assert forall|i: int| 0 <= i < r.len() implies !is_ascii_upper(#[trigger] r[i]) by {
                        if i < s.len() {
                            assert(r[i] == s[i]);
                        }
                    }
                }
            }
        }
    }
}

/// A slug is ASCII letters, digits and single dashes, begins and ends with a
/// letter or digit, and holds exactly the ASCII letters and digits of the
/// lower-cased title, in order; it is empty exactly when there are none.
pub proof fn law_slug_shape(title: Seq<char>)
    ensures
        slug_shaped(slug_of(title)),
        alnum_only(slug_of(title)) == alnum_only(lowered(title)),
        slug_of(title).len() == 0 <==> forall|i: int|
            0 <= i < lowered(title).len() ==> !is_ascii_alnum(#[trigger] lowered(title)[i]),
{
    lemma_scan(lowered(title));
    lemma_alnum_only_empty(slug_of(title));
    lemma_alnum_only_empty(lowered(title));
    let s = slug_of(title);
    if s.len() > 0 {
        assert(is_ascii_alnum(s[0]));
    }
}

proof fn lemma_lowered_ascii(cs: Seq<char>)
    requires
        forall|i: int| 0 <= i < cs.len() ==> is_ascii_char(#[trigger] cs[i]),
    ensures
        no_upper(lowered(cs)),
        no_upper(cs) ==> lowered(cs) == cs,
    decreases cs.len(),
{
    if cs.len() > 0 {
        let prev = cs.drop_last();
        assert forall|i: int| 0 <= i < prev.len() implies is_ascii_char(#[trigger] prev[i]) by {
            assert(prev[i] == cs[i]);
        }
        lemma_lowered_ascii(prev);
        let c = cs.last();
        assert(is_ascii_char(cs[cs.len() - 1]));
        let l = lowered(cs);
        assert(l == lowered(prev) + seq![ascii_lower(c)]);
        assert forall|i: int| 0 <= i < l.len() implies !is_ascii_upper(#[trigger] l[i]) by {
            if i < lowered(prev).len() {
                assert(l[i] == lowered(prev)[i]);
            }
        }
        if no_upper(cs) {
            assert forall|i: int| 0 <= i < prev.len() implies !is_ascii_upper(#[trigger] prev[i]) by {
                assert(prev[i] == cs[i]);
            }
            assert(!is_ascii_upper(cs[cs.len() - 1]));
            assert(cs == prev.push(c));
        }
    }
}

/// The slug of an ASCII title has no upper-case letters.
pub proof fn law_slug_lowercase(title: Seq<char>)
    requires
        forall|i: int| 0 <= i < title.len() ==> is_ascii_char(#[trigger] title[i]),
    ensures
        no_upper(slug_of(title)),
{
    lemma_lowered_ascii(title);
    lemma_scan(lowered(title));
}

/// Drops one trailing dash, if there is one.
spec fn strip_dash(p: Seq<char>) -> Seq<char> {
    if p.len() > 0 && p.last() == '-' { p.drop_last() } else { p }
}

proof fn lemma_scan_of_slug_prefix(s: Seq<char>, k: int)
    requires
        slug_shaped(s),
        0 <= k <= s.len(),
    ensures
        slug_scan(s.take(k)).0 == strip_dash(s.take(k)),
        slug_scan(s.take(k)).1 == (k > 0 && s[k - 1] == '-'),
    decreases k,
{
    if k > 0 {
        lemma_scan_of_slug_prefix(s, k - 1);
        let p = s.take(k - 1);
        let c = s[k - 1];
        assert(s.take(k) == p.push(c));
        assert(s.take(k).drop_last() == p);
        if is_ascii_alnum(c) {
            if k >= 2 && s[k - 2] == '-' {
                assert(k - 2 > 0) by {
                    if k - 2 == 0 {
                        assert(is_ascii_alnum(s[0]));
                    }
                }
                assert(strip_dash(p) == p.drop_last());
                assert(p.drop_last().push('-') == p);
            }
        } else {
            assert(c == '-');
            if k >= 2 {
                assert(s[k - 2] != '-');
            } else {
                assert(is_ascii_alnum(s[0]));
            }
        }
    }
}

/// A well-formed lower-case slug is its own slug.
pub proof fn law_slug_fixed_point(s: Seq<char>)
    requires
        slug_shaped(s),
        no_upper(s),
    ensures
        slug_of(s) == s,
{
    assert forall|i: int| 0 <= i < s.len() implies is_ascii_char(#[trigger] s[i]) by {
        assert(is_ascii_alnum(s[i]) || s[i] == '-');
    }
    lemma_lowered_ascii(s);
    lemma_scan_of_slug_prefix(s, s.len() as int);
    assert(s.take(s.len() as int) == s);
    if s.len() > 0 {
        assert(is_ascii_alnum(s.last()));
    }
}

/// Slug building continued from a given state over more characters.
spec fn scan_from(state: (Seq<char>, bool), q: Seq<char>) -> (Seq<char>, bool)
    decreases q.len(),
{
    if q.len() == 0 {
        state
    } else {
        slug_step(scan_from(state, q.drop_last()), q.last())
    }
}

proof fn lemma_scan_concat(p: Seq<char>, q: Seq<char>)
    ensures
        slug_scan(p + q) == scan_from(slug_scan(p), q),
    decreases q.len(),
{
    if q.len() == 0 {
        assert(p + q == p);
    } else {
        lemma_scan_concat(p, q.drop_last());
        assert((p + q).drop_last() == p + q.drop_last());
        assert((p + q).last() == q.last());
    }
}

/// From a non-empty slug with a separator pending, the rest is appended after
/// one dash (nothing is appended when the rest has no letters or digits).
proof fn lemma_scan_after_separator(s: Seq<char>, q: Seq<char>)
    requires
        s.len() > 0,
    ensures
        scan_from((s, true), q) == (if slug_scan(q).0.len() == 0 {
            (s, true)
        } else {
            (s + seq!['-'] + slug_scan(q).0, slug_scan(q).1)
        }),
    decreases q.len(),
{
    if q.len() > 0 {
        let prev = q.drop_last();
        lemma_scan_after_separator(s, prev);
        let t0 = slug_scan(prev).0;
        let x = q.last();
        if is_ascii_alnum(x) && t0.len() > 0 && slug_scan(prev).1 {
            assert(s + seq!['-'] + t0 + seq!['-'] + seq![x] == s + seq!['-'] + t0.push('-').push(x));
        }
        assert((s + seq!['-'] + t0).push('-').push(x) =~= s + seq!['-'] + t0.push('-').push(x));
        assert((s + seq!['-'] + t0).push(x) =~= s + seq!['-'] + t0.push(x));
        assert(s.push('-').push(x) =~= s + seq!['-'] + seq![].push(x));
    }
}

/// From an empty slug, whatever separator is pending, a non-empty rest builds
/// the same slug as on its own.
proof fn lemma_scan_from_empty(p: bool, q: Seq<char>)
    requires
        q.len() > 0,
    ensures
        scan_from((Seq::empty(), p), q) == slug_scan(q),
    decreases q.len(),
{
    if q.len() > 1 {
        lemma_scan_from_empty(p, q.drop_last());
    } else {
        let e = Seq::<char>::empty();
        assert(q.drop_last().len() == 0);
        assert(scan_from((e, p), q.drop_last()) == (e, p));
        assert(slug_scan(q.drop_last()) == (e, false));
        let x = q.last();
        if is_ascii_alnum(x) {
            assert(slug_step((e, p), x) == (e.push(x), false));
            assert(slug_step((e, false), x) == (e.push(x), false));
        }
    }
}

proof fn lemma_lowered_concat(x: Seq<char>, y: Seq<char>)
    ensures
        lowered(x + y) == lowered(x) + lowered(y),
    decreases y.len(),
{
    if y.len() == 0 {
        assert(x + y == x);
        assert(lowered(x) + lowered(y) == lowered(x));
    } else {
        lemma_lowered_concat(x, y.drop_last());
        assert((x + y).drop_last() == x + y.drop_last());
        assert((x + y).last() == y.last());
        assert(lowered(x) + lowered(y.drop_last()) + lower_of(y.last())
            == lowered(x) + (lowered(y.drop_last()) + lower_of(y.last())));
    }
}

/// Every ASCII character that is not a letter or digit separates runs: the slug
/// of `a`, then such a character, then `b`, is the slug of `a` and the slug of
/// `b` joined by one dash (just the other one when either has no letters or
/// digits).
pub proof fn law_slug_separator(a: Seq<char>, c: char, b: Seq<char>)
    requires
        is_ascii_char(c),
        !is_ascii_alnum(c),
    ensures
        slug_of(a + seq![c] + b) == if slug_of(a).len() == 0 {
            slug_of(b)
        } else if slug_of(b).len() == 0 {
            slug_of(a)
        } else {
            slug_of(a) + seq!['-'] + slug_of(b)
        },
{
    let la = lowered(a);
    let lb = lowered(b);
    assert(lowered(seq![c]) == seq![c]) by {
        assert(seq![c].drop_last().len() == 0);
        assert(seq![c].last() == c);
        assert(lowered(seq![c].drop_last()) == Seq::<char>::empty());
        assert(Seq::<char>::empty() + seq![ascii_lower(c)] == seq![ascii_lower(c)]);
    }
    lemma_lowered_concat(a, seq![c]);
    lemma_lowered_concat(a + seq![c], b);
    let l = la + seq![c] + lb;
    assert(lowered(a + seq![c] + b) == l);
    lemma_scan_concat(la + seq![c], lb);
    assert((la + seq![c]).drop_last() == la);
    assert((la + seq![c]).last() == c);
    let sa = slug_scan(la).0;
    assert(slug_scan(la + seq![c]) == (sa, true));
    assert(slug_of(a + seq![c] + b) == scan_from((sa, true), lb).0);
    assert(slug_of(a) == sa);
    assert(slug_of(b) == slug_scan(lb).0);
    if sa.len() > 0 {
        lemma_scan_after_separator(sa, lb);
    } else if lb.len() > 0 {
        assert(sa =~= Seq::<char>::empty());
        lemma_scan_from_empty(true, lb);
    } else {
        assert(scan_from((sa, true), lb) == (sa, true));
        assert(slug_scan(lb).0.len() == 0);
        assert(sa =~= slug_scan(lb).0);
    }
}

} // verus!
