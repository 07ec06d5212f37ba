//! The decisions of article persistence: slug allocation on create, and how the
//! database's answers become articles or errors. The queries themselves run
//! outside the library; they hand their results to these functions.

use vstd::prelude::*;
use vstd::string::*;
use crate::domain::article::{
    law_slug_shape, slug_of, slug_shaped, slugify, status_named, Article, ArticleStatus,
};
use crate::error::AppError;
use crate::text::{decimal, decimal_string, lemma_decimal_digits, lemma_decimal_injective};

verus! {

broadcast use vstd::string::group_string_axioms;

/// How many slugs `create` tries before giving up.
pub const SLUG_ATTEMPTS: u32 = 100;

/// One row of the `articles` table as the database returns it.
#[derive(Debug, Clone)]
pub struct ArticleRow {
    /// Database id.
    pub id: i64,
    /// Display title.
    pub title: String,
    /// Unique URL slug.
    pub slug: String,
    /// Markdown source.
    pub markdown: String,
    /// Stored status text.
    pub status: String,
    /// Creation timestamp.
    pub created_at: String,
    /// Last-update timestamp.
    pub updated_at: String,
    /// First-publish timestamp.
    pub published_at: Option<String>,
}

/// The article holds the row's fields, with the status parsed.
pub open spec fn article_matches_row(a: Article, row: ArticleRow) -> bool {
    &&& a.id == row.id
    &&& a.title@ == row.title@
    &&& a.slug@ == row.slug@
    &&& a.markdown@ == row.markdown@
    &&& Some(a.status) == status_named(row.status@)
    &&& a.created_at@ == row.created_at@
    &&& a.updated_at@ == row.updated_at@
    &&& match (a.published_at, row.published_at) {
        (Some(x), Some(y)) => x@ == y@,
        (None, None) => true,
        _ => false,
    }
}

/// What converting a row gives: the article, or the error for an unknown status.
pub open spec fn row_converts(row: ArticleRow, r: Result<Article, AppError>) -> bool {
    match r {
        Ok(a) => article_matches_row(a, row),
        Err(e) => {
            &&& status_named(row.status@) is None
            &&& (e matches AppError::Internal(m) && m@ == "unknown article status: "@ + row.status@)
        },
    }
}

impl Article {
    /// Convert a stored row into an article, parsing its status.
    ///
    /// # Errors
    /// Returns `AppError::Internal` when the stored status is unknown.
    pub fn from_row(row: ArticleRow) -> (r: Result<Article, AppError>)
        ensures
            row_converts(row, r),
            r is Ok <==> status_named(row.status@) is Some,
    {
        match ArticleStatus::parse(row.status.as_str()) {
            Ok(status) => Ok(Article {
                id: row.id,
                title: row.title,
                slug: row.slug,
                markdown: row.markdown,
                status,
                created_at: row.created_at,
                updated_at: row.updated_at,
                published_at: row.published_at,
            }),
            Err(e) => Err(e),
        }
    }
}

/// The slug tried at a given attempt: the base first, then `base-2`, `base-3`, ...
pub open spec fn candidate_slug(base: Seq<char>, attempt: nat) -> Seq<char> {
    if attempt == 0 {
        base
    } else {
        base + seq!['-'] + decimal(attempt + 1)
    }
}

/// The base slug of a new article: the title's slug, or `post` when that is empty.
pub open spec fn base_slug(title: Seq<char>) -> Seq<char> {
    if slug_of(title).len() == 0 {
        seq!['p', 'o', 's', 't']
    } else {
        slug_of(title)
    }
}

/// What the database answered to one insert of a new article.
pub enum InsertOutcome {
    /// The row was inserted; this is it.
    Inserted(ArticleRow),
    /// Another article already has the slug.
    SlugTaken,
    /// Any other database failure.
    Failed(sqlx::Error),
}

/// What `create` does next.
pub enum CreateAction {
    /// Insert the article with this slug.
    TryInsert(String),
    /// Stop with this result.
    Finish(Result<Article, AppError>),
}

/// The progress of creating one article: which slug attempt comes next.
pub struct SlugAllocation {
    base: String,
    attempt: u32,
}

impl SlugAllocation {
    /// The base slug.
    pub closed spec fn base(&self) -> Seq<char> {
        self.base@
    }

    /// How many slugs were refused so far.
    pub closed spec fn attempt(&self) -> nat {
        self.attempt as nat
    }

    /// The allocation state is sound.
    pub closed spec fn wf(&self) -> bool {
        self.attempt < SLUG_ATTEMPTS
    }

    /// Start creating an article with the given title.
    pub fn for_title(title: &str) -> (r: Self)
        ensures
            r.wf(),
            r.base() == base_slug(title@),
            slug_of(title@).len() > 0 ==> r.base() == slug_of(title@),
            slug_of(title@).len() == 0 ==> r.base() == seq!['p', 'o', 's', 't'],
            r.attempt() == 0,
    {
        let slug = slugify(title);
        let base = if slug.as_str().is_empty() {
            let post = "post".to_string();
            proof {
                reveal_strlit("post");
                assert(post@ == seq!['p', 'o', 's', 't']);
            }
            post
        } else {
            slug
        };
        SlugAllocation { base, attempt: 0 }
    }

    /// The slug of the current attempt.
    pub fn candidate(&self) -> (r: String)
        ensures
            r@ == candidate_slug(self.base(), self.attempt()),
    {
        if self.attempt == 0 {
            self.base.clone()
        } else {
            let number = decimal_string(self.attempt as u64 + 1);
            proof {
                reveal_strlit("-");
            }
            self.base.clone().concat("-").concat(number.as_str())
        }
    }

    /// The first thing to do: insert with the base slug.
    pub fn first_action(&self) -> (r: CreateAction)
        requires
            self.wf(),
        ensures
            r matches CreateAction::TryInsert(s) && s@ == candidate_slug(self.base(), self.attempt()),
    {
        CreateAction::TryInsert(self.candidate())
    }

    /// What to do after the database answered an insert: a stored row finishes
    /// with the article, a taken slug moves on to the next candidate (or gives up
    /// after the last one), any other failure finishes with that database error.
    pub fn on_outcome(&mut self, outcome: InsertOutcome) -> (r: CreateAction)
        requires
            old(self).wf(),
        ensures
            final(self).base() == old(self).base(),
            match outcome {
                InsertOutcome::Inserted(row) => {
                    &&& final(self).attempt() == old(self).attempt()
                    &&& (r matches CreateAction::Finish(res) && row_converts(row, res))
                },
                InsertOutcome::SlugTaken => if old(self).attempt() + 1 < SLUG_ATTEMPTS {
                    &&& final(self).attempt() == old(self).attempt() + 1
                    &&& (r matches CreateAction::TryInsert(s) && s@ == candidate_slug(old(self).base(), final(self).attempt()))
                } else {
                    &&& final(self).attempt() == old(self).attempt()
                    &&& (r matches CreateAction::Finish(Err(AppError::Internal(m)))
                        && m@ == "could not allocate a unique slug"@)
                },
                InsertOutcome::Failed(_) => {
                    &&& final(self).attempt() == old(self).attempt()
                    &&& r matches CreateAction::Finish(Err(AppError::Db(_)))
                },
            },
            final(self).wf(),
    {
        match outcome {
            InsertOutcome::Inserted(row) => CreateAction::Finish(Article::from_row(row)),
            InsertOutcome::SlugTaken => {
                if self.attempt + 1 < SLUG_ATTEMPTS {
                    self.attempt = self.attempt + 1;
                    CreateAction::TryInsert(self.candidate())
                } else {
                    let m = "could not allocate a unique slug".to_string();
                    assert(m@ == "could not allocate a unique slug"@);
                    CreateAction::Finish(Err(AppError::Internal(m)))
                }
            },
            InsertOutcome::Failed(e) => CreateAction::Finish(Err(AppError::Db(e))),
        }
    }
}

/// Every candidate of one base is different from every other: the retries of
/// `create` never try the same slug twice.
pub proof fn law_candidates_distinct(base: Seq<char>, i: nat, j: nat)
    requires
        i != j,
    ensures
        candidate_slug(base, i) != candidate_slug(base, j),
{
    lemma_decimal_digits(i + 1);
    lemma_decimal_digits(j + 1);
    if i == 0 || j == 0 {
        assert(candidate_slug(base, i).len() != candidate_slug(base, j).len());
    } else {
        let a = candidate_slug(base, i);
        let b = candidate_slug(base, j);
        if a == b {
            let n = base.len() + 1;
            assert(a.subrange(n as int, a.len() as int) == decimal(i + 1));
            assert(b.subrange(n as int, b.len() as int) == decimal(j + 1));
            lemma_decimal_injective(i + 1, j + 1);
        }
    }
}

/// The first slug `create` tries is the title's own slug whenever that is not
/// empty, and `post` only when the title has no ASCII letters or digits; the
/// numbered retries extend that same base.
pub proof fn law_base_is_title_slug(title: Seq<char>, i: nat)
    ensures
        slug_of(title).len() > 0 ==> candidate_slug(base_slug(title), 0) == slug_of(title),
        slug_of(title).len() == 0 ==> candidate_slug(base_slug(title), 0) == seq!['p', 'o', 's', 't'],
        i > 0 ==> candidate_slug(base_slug(title), i).take(base_slug(title).len() as int) == base_slug(title),
        slug_of(title).len() > 0 && i > 0 ==> candidate_slug(base_slug(title), i) == slug_of(title) + seq!['-'] + decimal(i + 1),
{
    if i > 0 {
        let b = base_slug(title);
        assert(candidate_slug(b, i).take(b.len() as int) =~= b);
    }
}

/// The base slug of every title is a non-empty well-formed slug, so every slug
/// `create` tries is one too.
pub proof fn law_base_slug_well_formed(title: Seq<char>, i: nat)
    ensures
        slug_shaped(base_slug(title)),
        base_slug(title).len() > 0,
        slug_shaped(candidate_slug(base_slug(title), i)),
{
    law_slug_shape(title);
    let post = seq!['p', 'o', 's', 't'];
    assert(crate::text::is_ascii_alnum(post[0]) && crate::text::is_ascii_alnum(post[1]));
    assert(crate::text::is_ascii_alnum(post[2]) && crate::text::is_ascii_alnum(post[3]));
    assert(slug_shaped(post));
    law_candidates_well_formed(base_slug(title), i);
}

/// A candidate of a well-formed base slug is itself a well-formed slug.
pub proof fn law_candidates_well_formed(base: Seq<char>, i: nat)
    requires
        slug_shaped(base),
        base.len() > 0,
    ensures
        slug_shaped(candidate_slug(base, i)),
{
    if i > 0 {
        lemma_decimal_digits(i + 1);
        let d = decimal(i + 1);
        let c = candidate_slug(base, i);
        let n = base.len() as int;
        assert(c.len() == n + 1 + d.len());
        assert(c[n] == '-');
        assert forall|k: int| 0 <= k < c.len() implies crate::text::is_ascii_alnum(#[trigger] c[k]) || c[k] == '-' by {
            if k < n {
                assert(c[k] == base[k]);
            } else if k > n {
                assert(c[k] == d[k - n - 1]);
            }
        }
        assert forall|k: int| #![trigger c[k]] 0 <= k < c.len() - 1 && c[k] == '-' implies c[k + 1] != '-' by {
            if k < n - 1 {
                assert(c[k] == base[k]);
                assert(c[k + 1] == base[k + 1]);
            } else if k == n - 1 {
                assert(c[k] == base.last());
            } else if k >= n {
                assert(c[k + 1] == d[k + 1 - n - 1]);
            }
        }
        assert(c[0] == base[0]);
        assert(c.last() == d.last());
        assert(d.last() == d[d.len() - 1]);
    }
}

/// The slug an update wants is refused before any query when it is empty.
///
/// # Errors
/// `BadRequest` when the slug is empty.
pub fn check_update_slug(slug: &str) -> (r: Result<(), AppError>)
    ensures
        r is Ok <==> slug@.len() > 0,
        r matches Err(e) ==> e matches AppError::BadRequest(m) && m@ == "slug must not be empty"@,
{
    if slug.is_empty() {
        let m = "slug must not be empty".to_string();
        assert(m@ == "slug must not be empty"@);
        Err(AppError::BadRequest(m))
    } else {
        Ok(())
    }
}

/// What the database answered to an update of one article.
pub enum UpdateOutcome {
    /// The updated row.
    Updated(ArticleRow),
    /// No article has the id.
    NoRow,
    /// Another article already has the slug.
    SlugTaken,
    /// Any other database failure.
    Failed(sqlx::Error),
}

/// The result of an update: the article, `NotFound` for an unknown id,
/// `BadRequest` for a taken slug, `Db` for any other failure.
pub fn update_result(outcome: UpdateOutcome) -> (r: Result<Article, AppError>)
    ensures
        match outcome {
            UpdateOutcome::Updated(row) => row_converts(row, r),
            UpdateOutcome::NoRow => r matches Err(AppError::NotFound),
            UpdateOutcome::SlugTaken => r matches Err(AppError::BadRequest(m)) && m@ == "slug already exists"@,
            UpdateOutcome::Failed(_) => r matches Err(AppError::Db(_)),
        },
{
    match outcome {
        UpdateOutcome::Updated(row) => Article::from_row(row),
        UpdateOutcome::NoRow => Err(AppError::NotFound),
        UpdateOutcome::SlugTaken => {
            let m = "slug already exists".to_string();
            assert(m@ == "slug already exists"@);
            Err(AppError::BadRequest(m))
        },
        UpdateOutcome::Failed(e) => Err(AppError::Db(e)),
    }
}

/// The article of a status change: `NotFound` when no row was changed.
pub fn changed_row(row: Option<ArticleRow>) -> (r: Result<Article, AppError>)
    ensures
        match row {
            Some(row) => row_converts(row, r),
            None => r matches Err(AppError::NotFound),
        },
{
    match row {
        Some(row) => Article::from_row(row),
        None => Err(AppError::NotFound),
    }
}

/// The article of a lookup, if a row was found.
pub fn found_row(row: Option<ArticleRow>) -> (r: Result<Option<Article>, AppError>)
    ensures
        match row {
            Some(row) => match r {
                Ok(Some(a)) => article_matches_row(a, row),
                Ok(None) => false,
                Err(e) => row_converts(row, Err(e)),
            },
            None => r matches Ok(None),
        },
{
    match row {
        Some(row) => match Article::from_row(row) {
            Ok(a) => Ok(Some(a)),
            Err(e) => Err(e),
        },
        None => Ok(None),
    }
}

/// The articles of a listing, in the rows' order; the first row with an unknown
/// status makes the whole listing fail.
pub fn rows_to_articles(rows: Vec<ArticleRow>) -> (r: Result<Vec<Article>, AppError>)
    ensures
        match r {
            Ok(v) => v.len() == rows.len() && forall|i: int| 0 <= i < rows.len() ==>
                article_matches_row(#[trigger] v@[i], rows@[i]),
            Err(e) => exists|i: int| 0 <= i < rows.len() && row_converts(#[trigger] rows@[i], Err(e))
                && forall|k: int| 0 <= k < i ==> status_named(#[trigger] rows@[k].status@) is Some,
        },
{
    let mut out: Vec<Article> = Vec::new();
    let ghost all = rows@;
    for row in it: rows.into_iter()
        invariant
            it.seq() == all,
            out.len() == it.index(),
            forall|k: int| 0 <= k < it.index() ==> article_matches_row(#[trigger] out@[k], all[k]),
            forall|k: int| 0 <= k < it.index() ==> status_named(#[trigger] all[k].status@) is Some,
    {
        let ghost i = it.index();
        assert(row == all[i]);
        match Article::from_row(row) {
            Ok(a) => {
                out.push(a);
            },
            Err(e) => {
                assert(row_converts(all[i], Err(e)));
                return Err(e);
            },
        }
    }
    Ok(out)
}

} // verus!
