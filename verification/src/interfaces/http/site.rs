//! Static site routing with SPA fallback: which embedded file answers a path.

use vstd::prelude::*;
use vstd::string::*;
use crate::text::{chars_of, string_from_chars};

verus! {

broadcast use vstd::string::group_string_axioms;

/// The MIME type that `mime_guess` guesses from a path's extension
/// (`application/octet-stream` when it knows none).
pub uninterp spec fn guessed_mime(path: Seq<char>) -> Seq<char>;

/// Calls `mime_guess::from_path(path).first_or_octet_stream()` and returns the
/// MIME type's text. Trusted: the result is `guessed_mime` of the path; the guess
/// depends on the path alone (a fixed extension table, no disk access).
#[verifier::external_body]
fn guess_mime(path: &str) -> (r: String)
    ensures
        r@ == guessed_mime(path@),
{
    mime_guess::from_path(path).first_or_octet_stream().as_ref().to_string()
}

/// How a request path is answered.
pub enum SiteReply {
    /// An unmatched `/api/*` path: the JSON not-found error.
    ApiNotFound,
    /// An embedded file, with the content type to send.
    Asset { path: String, content_type: String },
    /// The embedded `404.html`, with status 404.
    NotFoundPage,
    /// A bare 404 status (no `404.html` is embedded).
    BareNotFound,
}

/// The abstract form of a [`SiteReply`].
pub enum SiteChoice {
    Api,
    Asset(Seq<char>),
    NotFoundPage,
    BareNotFound,
}

impl SiteReply {
    /// The abstract form of the reply.
    pub open spec fn choice(&self) -> SiteChoice {
        match self {
            SiteReply::ApiNotFound => SiteChoice::Api,
            SiteReply::Asset { path, .. } => SiteChoice::Asset(path@),
            SiteReply::NotFoundPage => SiteChoice::NotFoundPage,
            SiteReply::BareNotFound => SiteChoice::BareNotFound,
        }
    }
}

/// `p` without its leading slashes.
pub open spec fn trim_start_slashes(p: Seq<char>) -> Seq<char>
    decreases p.len(),
{
    if p.len() > 0 && p[0] == '/' {
        trim_start_slashes(p.drop_first())
    } else {
        p
    }
}

/// `p` without its trailing slashes.
pub open spec fn trim_end_slashes(p: Seq<char>) -> Seq<char>
    decreases p.len(),
{
    if p.len() > 0 && p.last() == '/' {
        trim_end_slashes(p.drop_last())
    } else {
        p
    }
}

/// `p` without leading and trailing slashes.
pub open spec fn trim_slashes(p: Seq<char>) -> Seq<char> {
    trim_end_slashes(trim_start_slashes(p))
}

/// The path is the API prefix itself or below it.
pub open spec fn is_api_path(t: Seq<char>) -> bool {
    t == seq!['a', 'p', 'i'] || (t.len() >= 4 && t.take(4) == seq!['a', 'p', 'i', '/'])
}

/// A `..` segment starts at index `i` of `t`.
pub open spec fn parent_segment_at(t: Seq<char>, i: int) -> bool {
    &&& 0 <= i
    &&& i + 2 <= t.len()
    &&& t[i] == '.'
    &&& t[i + 1] == '.'
    &&& (i == 0 || t[i - 1] == '/')
    &&& (i + 2 == t.len() || t[i + 2] == '/')
}

/// Some `/`-separated segment of `t` is `..`.
pub open spec fn has_parent_segment(t: Seq<char>) -> bool {
    exists|i: int| parent_segment_at(t, i)
}

/// The file name that a trimmed path asks for (the empty path is the home page).
pub open spec fn requested_name(t: Seq<char>) -> Seq<char> {
    if t.len() == 0 { "index.html"@ } else { t }
}

/// The directory-index file under a directory path.
pub open spec fn index_under(dir: Seq<char>) -> Seq<char> {
    dir + "/index.html"@
}

/// The position of the last `/` before `end`, if any.
pub open spec fn last_slash_before(s: Seq<char>, end: int) -> Option<int>
    decreases end,
{
    if end <= 0 {
        None
    } else if s[end - 1] == '/' {
        Some(end - 1)
    } else {
        last_slash_before(s, end - 1)
    }
}

/// Where the last slash before `end` can be.
pub proof fn lemma_last_slash_before(s: Seq<char>, end: int)
    ensures
        last_slash_before(s, end) matches Some(p) ==> 0 <= p < end && s[p] == '/',
        last_slash_before(s, end) is None ==> forall|k: int| 0 <= k < end ==> #[trigger] s[k] != '/',
    decreases end,
{
    if end > 0 && s[end - 1] != '/' {
        lemma_last_slash_before(s, end - 1);
    }
}

/// The nearest ancestor directory index of `name[..end]` that is embedded,
/// trying ancestors from the longest to the shortest.
pub open spec fn ancestor_index(name: Seq<char>, end: int, assets: Seq<Seq<char>>) -> Option<Seq<char>>
    decreases end,
{
    match last_slash_before(name, end) {
        None => None,
        Some(pos) => {
            proof {
                lemma_last_slash_before(name, end);
            }
            if assets.contains(index_under(name.take(pos))) {
                Some(index_under(name.take(pos)))
            } else {
                ancestor_index(name, pos, assets)
            }
        },
    }
}

/// Which embedded file answers the request path `path`: exact file, then
/// `{path}/index.html`, then the longest ancestor `index.html`, then `404.html`.
pub open spec fn site_choice(path: Seq<char>, assets: Seq<Seq<char>>) -> SiteChoice {
    let t = trim_slashes(path);
    let not_found = not_found_choice(assets);
    if is_api_path(t) {
        SiteChoice::Api
    } else if has_parent_segment(t) {
        not_found
    } else {
        let name = requested_name(t);
        if assets.contains(name) {
            SiteChoice::Asset(name)
        } else if assets.contains(index_under(name)) {
            SiteChoice::Asset(index_under(name))
        } else {
            match ancestor_index(name, name.len() as int, assets) {
                Some(found) => SiteChoice::Asset(found),
                None => not_found,
            }
        }
    }
}

/// The 404 answer: the embedded `404.html` when there is one, a bare status otherwise.
pub open spec fn not_found_choice(assets: Seq<Seq<char>>) -> SiteChoice {
    if assets.contains("404.html"@) {
        SiteChoice::NotFoundPage
    } else {
        SiteChoice::BareNotFound
    }
}

/// The names of the embedded files.
pub open spec fn names_of(assets: Seq<String>) -> Seq<Seq<char>> {
    assets.map_values(|s: String| s@)
}

fn has_asset(assets: &Vec<String>, name: &String) -> (r: bool)
    ensures
        r == names_of(assets@).contains(name@),
{
    let mut i: usize = 0;
    while i < assets.len()
        invariant
            i <= assets.len(),
            forall|k: int| 0 <= k < i ==> assets@[k]@ != name@,
        decreases assets.len() - i,
    {
        if assets[i] == *name {
            assert(names_of(assets@)[i as int] == name@);
            return true;
        }
        i = i + 1;
    }
    assert forall|k: int| 0 <= k < names_of(assets@).len() implies names_of(assets@)[k] != name@ by {
        assert(names_of(assets@)[k] == assets@[k]@);
    }
    false
}

fn slash_trimmed(cs: &Vec<char>) -> (t: Vec<char>)
    ensures
        t@ == trim_slashes(cs@),
{
    let mut start: usize = 0;
    assert(cs@.subrange(0, cs.len() as int) == cs@);
    while start < cs.len() && cs[start] == '/'
        invariant
            start <= cs.len(),
            trim_start_slashes(cs@) == trim_start_slashes(cs@.subrange(start as int, cs.len() as int)),
        decreases cs.len() - start,
    {
        let ghost rest = cs@.subrange(start as int, cs.len() as int);
        assert(rest.drop_first() == cs@.subrange(start as int + 1, cs.len() as int));
        start = start + 1;
    }
    let ghost mid = cs@.subrange(start as int, cs.len() as int);
    assert(trim_start_slashes(mid) == mid);
    let mut end: usize = cs.len();
    while end > start && cs[end - 1] == '/'
        invariant
            start <= end <= cs.len(),
            mid == cs@.subrange(start as int, cs.len() as int),
            trim_end_slashes(mid) == trim_end_slashes(cs@.subrange(start as int, end as int)),
        decreases end,
    {
        let ghost cur = cs@.subrange(start as int, end as int);
        assert(cur.drop_last() == cs@.subrange(start as int, end as int - 1));
        end = end - 1;
    }
    let mut t: Vec<char> = Vec::new();
    let mut i: usize = start;
    while i < end
        invariant
            start <= i <= end,
            end <= cs.len(),
            t@ == cs@.subrange(start as int, i as int),
        decreases end - i,
    {
        t.push(cs[i]);
        i = i + 1;
    }
    t
}

fn is_api(t: &Vec<char>) -> (r: bool)
    ensures
        r == is_api_path(t@),
{
    let exact = t.len() == 3 && t[0] == 'a' && t[1] == 'p' && t[2] == 'i';
    let below = t.len() >= 4 && t[0] == 'a' && t[1] == 'p' && t[2] == 'i' && t[3] == '/';
    proof {
        if t.len() == 3 && t@ == seq!['a', 'p', 'i'] {
            assert(t@[0] == 'a' && t@[1] == 'p' && t@[2] == 'i');
        }
        if exact {
            assert(t@ =~= seq!['a', 'p', 'i']);
        }
        if t.len() >= 4 && t@.take(4) == seq!['a', 'p', 'i', '/'] {
            assert(t@.take(4)[0] == 'a' && t@.take(4)[1] == 'p');
            assert(t@.take(4)[2] == 'i' && t@.take(4)[3] == '/');
        }
        if below {
            assert(t@.take(4) =~= seq!['a', 'p', 'i', '/']);
        }
    }
    exact || below
}

fn parent_segment(t: &Vec<char>) -> (r: bool)
    ensures
        r == has_parent_segment(t@),
{
    let mut i: usize = 0;
    while i < t.len()
        invariant
            i <= t.len(),
            forall|k: int| 0 <= k < i ==> !parent_segment_at(t@, k),
        decreases t.len() - i,
    {
        if i + 1 < t.len() && t[i] == '.' && t[i + 1] == '.' && (i == 0 || t[i - 1] == '/') && (
        i + 2 == t.len() || t[i + 2] == '/') {
            assert(parent_segment_at(t@, i as int));
            return true;
        }
        i = i + 1;
    }
    assert forall|k: int| !parent_segment_at(t@, k) by {
        if 0 <= k < t.len() {
        }
    }
    false
}

fn index_path(dir: &Vec<char>, end: usize) -> (r: String)
    requires
        end <= dir.len(),
    ensures
        r@ == index_under(dir@.take(end as int)),
{
    let mut prefix: Vec<char> = Vec::new();
    let mut i: usize = 0;
    while i < end
        invariant
            i <= end,
            end <= dir.len(),
            prefix@ == dir@.take(i as int),
        decreases end - i,
    {
        prefix.push(dir[i]);
        assert(dir@.take(i as int + 1) == dir@.take(i as int).push(dir@[i as int]));
        i = i + 1;
    }
    string_from_chars(&prefix).concat("/index.html")
}

fn not_found_reply(assets: &Vec<String>) -> (r: SiteReply)
    ensures
        r.choice() == not_found_choice(names_of(assets@)),
{
    let page = "404.html".to_string();
    assert(page@ == "404.html"@);
    if has_asset(assets, &page) {
        SiteReply::NotFoundPage
    } else {
        SiteReply::BareNotFound
    }
}

fn asset_reply(name: String) -> (r: SiteReply)
    ensures
        r.choice() == SiteChoice::Asset(name@),
        r matches SiteReply::Asset { content_type, .. } ==> content_type@ == guessed_mime(name@),
{
    let content_type = guess_mime(name.as_str());
    SiteReply::Asset { path: name, content_type }
}

/// Resolve a request path to the embedded file that answers it, given the names
/// of the embedded files.
///
/// Order: exact file → `{path}/index.html` → longest ancestor `index.html`
/// → `404.html` with status 404. Unmatched `/api/*` paths get the JSON
/// not-found error instead of HTML. The empty path (`/`) maps to
/// `index.html`. Paths containing `..` segments get the 404 answer before any
/// lookup.
pub fn resolve_site_path(path: &str, assets: &Vec<String>) -> (r: SiteReply)
    ensures
        r.choice() == site_choice(path@, names_of(assets@)),
        r matches SiteReply::Asset { path: p, content_type } ==> content_type@ == guessed_mime(p@),
{
    let cs = chars_of(path);
    let t = slash_trimmed(&cs);
    if is_api(&t) {
        return SiteReply::ApiNotFound;
    }
    if parent_segment(&t) {
        return not_found_reply(assets);
    }
    let name: Vec<char> = if t.len() == 0 {
        let home = chars_of("index.html");
        home
    } else {
        t
    };
    assert(name@ == requested_name(trim_slashes(path@)));
    let exact = string_from_chars(&name);
    if has_asset(assets, &exact) {
        return asset_reply(exact);
    }
    let dir_index = index_path(&name, name.len());
    assert(name@.take(name.len() as int) == name@);
    if has_asset(assets, &dir_index) {
        return asset_reply(dir_index);
    }
    let mut end: usize = name.len();
    loop
        invariant
            end <= name.len(),
            site_choice(path@, names_of(assets@)) == (match ancestor_index(name@, end as int, names_of(assets@)) {
                Some(found) => SiteChoice::Asset(found),
                None => not_found_choice(names_of(assets@)),
            }),
        decreases end,
    {
        let ghost old_end = end;
        // Find the last slash before `end`.
        let mut j: usize = end;
        while j > 0 && name[j - 1] != '/'
            invariant
                j <= end,
                end <= name.len(),
                last_slash_before(name@, end as int) == last_slash_before(name@, j as int),
            decreases j,
        {
            j = j - 1;
        }
        if j == 0 {
            assert(last_slash_before(name@, 0) is None);
            return not_found_reply(assets);
        }
        let pos = j - 1;
        assert(last_slash_before(name@, end as int) == Some(pos as int));
        let cand = index_path(&name, pos);
        if has_asset(assets, &cand) {
            return asset_reply(cand);
        }
        end = pos;
    }
}

proof fn lemma_ancestor_index_embedded(name: Seq<char>, end: int, assets: Seq<Seq<char>>)
    ensures
        ancestor_index(name, end, assets) matches Some(found) ==> assets.contains(found),
    decreases end,
{
    lemma_last_slash_before(name, end);
    match last_slash_before(name, end) {
        None => {},
        Some(pos) => {
            if !assets.contains(index_under(name.take(pos))) {
                lemma_ancestor_index_embedded(name, pos, assets);
            }
        },
    }
}

/// Every file the site answers with is one of the embedded files; the 404 page
/// is answered only when `404.html` is embedded.
pub proof fn law_site_serves_only_embedded(path: Seq<char>, assets: Seq<Seq<char>>)
    ensures
        site_choice(path, assets) matches SiteChoice::Asset(name) ==> assets.contains(name),
        site_choice(path, assets) is NotFoundPage ==> assets.contains("404.html"@),
{
    let t = trim_slashes(path);
    let name = requested_name(t);
    lemma_ancestor_index_embedded(name, name.len() as int, assets);
}

/// Paths under `/api` never get a page or a file: they get the JSON not-found
/// error, and only they do.
pub proof fn law_site_api_paths(path: Seq<char>, assets: Seq<Seq<char>>)
    ensures
        site_choice(path, assets) is Api <==> is_api_path(trim_slashes(path)),
{
}

/// A path with a `..` segment is never answered with a file.
pub proof fn law_site_parent_segments_refused(path: Seq<char>, assets: Seq<Seq<char>>)
    requires
        has_parent_segment(trim_slashes(path)),
        !is_api_path(trim_slashes(path)),
    ensures
        site_choice(path, assets) == not_found_choice(assets),
{
}

/// The files that may answer a request for `name`: the file itself, its
/// directory index, and the directory index of one of its proper ancestors
/// (`name` cut at one of its slashes).
pub open spec fn answer_candidate(name: Seq<char>, n: Seq<char>) -> bool {
    ||| n == name
    ||| n == index_under(name)
    ||| exists|p: int| 0 <= p < name.len() && name[p] == '/' && n == #[trigger] index_under(name.take(p))
}

proof fn lemma_ancestor_index_is_ancestor(name: Seq<char>, end: int, assets: Seq<Seq<char>>)
    requires
        end <= name.len(),
    ensures
        ancestor_index(name, end, assets) matches Some(n) ==> exists|p: int|
            0 <= p < end && name[p] == '/' && n == #[trigger] index_under(name.take(p)),
    decreases end,
{
    lemma_last_slash_before(name, end);
    match last_slash_before(name, end) {
        None => {},
        Some(pos) => {
            if !assets.contains(index_under(name.take(pos))) {
                lemma_ancestor_index_is_ancestor(name, pos, assets);
                if let Some(n) = ancestor_index(name, pos, assets) {
                    let p = choose|p: int| 0 <= p < pos && name[p] == '/' && n == #[trigger] index_under(name.take(p));
                    assert(0 <= p < end && name[p] == '/' && n == index_under(name.take(p)));
                }
            } else {
                assert(0 <= pos < end && name[pos] == '/');
            }
        },
    }
}

proof fn lemma_ancestor_index_none(name: Seq<char>, end: int, assets: Seq<Seq<char>>)
    requires
        end <= name.len(),
        forall|p: int| 0 <= p < end && name[p] == '/' ==> !assets.contains(#[trigger] index_under(name.take(p))),
    ensures
        ancestor_index(name, end, assets) is None,
    decreases end,
{
    lemma_last_slash_before(name, end);
    match last_slash_before(name, end) {
        None => {},
        Some(pos) => {
            assert(!assets.contains(index_under(name.take(pos))));
            lemma_ancestor_index_none(name, pos, assets);
        },
    }
}

/// A file answer is always the requested file, its directory index, or the
/// directory index of a proper ancestor directory (never an unrelated page such
/// as the home page); when none of these is embedded the answer is the 404.
pub proof fn law_site_answers_only_candidates(path: Seq<char>, assets: Seq<Seq<char>>)
    ensures
        site_choice(path, assets) matches SiteChoice::Asset(n) ==> answer_candidate(
            requested_name(trim_slashes(path)),
            n,
        ),
        !is_api_path(trim_slashes(path)) && (forall|n: Seq<char>|
            answer_candidate(requested_name(trim_slashes(path)), n) ==> !assets.contains(n))
            ==> site_choice(path, assets) == not_found_choice(assets),
{
    let name = requested_name(trim_slashes(path));
    lemma_ancestor_index_is_ancestor(name, name.len() as int, assets);
    if let Some(n) = ancestor_index(name, name.len() as int, assets) {
        let p = choose|p: int| 0 <= p < name.len() && name[p] == '/' && n == #[trigger] index_under(name.take(p));
        assert(answer_candidate(name, n));
    }
    if forall|n: Seq<char>| answer_candidate(name, n) ==> !assets.contains(n) {
        assert(answer_candidate(name, name));
        assert(answer_candidate(name, index_under(name)));
        assert forall|p: int| 0 <= p < name.len() && name[p] == '/' implies !assets.contains(
            #[trigger] index_under(name.take(p)),
        ) by {
            assert(answer_candidate(name, index_under(name.take(p))));
        }
        lemma_ancestor_index_none(name, name.len() as int, assets);
    }
}

} // verus!
