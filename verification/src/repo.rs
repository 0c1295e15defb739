use vstd::prelude::*;

verus! {

use vstd::multiset::Multiset;

use crate::errors::Error;
use crate::page::{Page, PageV};
use crate::settings::{Settings, SettingsV};

// ---------------------------------------------------------------------------
// Spec-level vocabulary over page collections
// ---------------------------------------------------------------------------

/// No two pages share an identity.
pub open spec fn unique_ids(pages: Seq<PageV>) -> bool {
    forall|i: int, j: int| 0 <= i < j < pages.len() ==> pages[i].id != pages[j].id
}

/// Some page has this identity.
pub open spec fn contains_id(pages: Seq<PageV>, id: int) -> bool {
    exists|i: int| 0 <= i < pages.len() && (#[trigger] pages[i]).id == id
}

/// The page with this identity (meaningful when `contains_id` holds and the
/// identities are unique).
pub open spec fn page_with_id(pages: Seq<PageV>, id: int) -> PageV {
    pages[choose|i: int| 0 <= i < pages.len() && (#[trigger] pages[i]).id == id]
}

/// The pages that are blog posts, in storage order.
pub open spec fn posts_of(pages: Seq<PageV>) -> Seq<PageV> {
    pages.filter(|p: PageV| p.is_post)
}

/// Every page keeps its value, except that the one sharing `p`'s identity
/// becomes `p`: full-row replace, last write wins.
pub open spec fn replace_page(pages: Seq<PageV>, p: PageV) -> Seq<PageV> {
    pages.map_values(|q: PageV| if q.id == p.id { p } else { q })
}

/// Listing order: time descending, identity descending on equal times.
pub open spec fn ge_key(a: PageV, b: PageV) -> bool {
    a.time > b.time || (a.time == b.time && a.id >= b.id)
}

/// Strict listing order.
pub open spec fn gt_key(a: PageV, b: PageV) -> bool {
    a.time > b.time || (a.time == b.time && a.id > b.id)
}

pub open spec fn sorted_desc(s: Seq<PageV>) -> bool {
    forall|i: int, j: int| 0 <= i < j < s.len() ==> ge_key(s[i], s[j])
}

/// With unique identities, the page found at a matching index is the page
/// with that identity.
pub proof fn lemma_page_with_id(pages: Seq<PageV>, id: int, i: int)
    requires
        unique_ids(pages),
        0 <= i < pages.len(),
        pages[i].id == id,
    ensures
        contains_id(pages, id),
        page_with_id(pages, id) == pages[i],
{
    assert(contains_id(pages, id));
    let k = choose|k: int| 0 <= k < pages.len() && (#[trigger] pages[k]).id == id;
    if k < i {
        assert(pages[k].id != pages[i].id);
    } else if i < k {
        assert(pages[i].id != pages[k].id);
    }
}

/// A full-row replace keeps identities unique and makes the replaced
/// identity look up to the new row.
pub proof fn lemma_replace_page_preserves(pages: Seq<PageV>, p: PageV)
    requires
        unique_ids(pages),
        contains_id(pages, p.id),
    ensures
        unique_ids(replace_page(pages, p)),
        contains_id(replace_page(pages, p), p.id),
        page_with_id(replace_page(pages, p), p.id) == p,
{
    let replaced = replace_page(pages, p);
    assert(forall|i: int| 0 <= i < pages.len() ==> (#[trigger] replaced[i]).id == pages[i].id);
    let k = choose|k: int| 0 <= k < pages.len() && (#[trigger] pages[k]).id == p.id;
    assert(replaced[k] == p);
    lemma_page_with_id(replaced, p.id, k);
}

/// Inserting anywhere adds exactly one occurrence to the multiset of values.
proof fn lemma_insert_to_multiset<A>(s: Seq<A>, k: int, v: A)
    requires
        0 <= k <= s.len(),
    ensures
        s.insert(k, v).to_multiset() == s.to_multiset().insert(v),
{
    broadcast use vstd::seq_lib::group_seq_properties;

    assert(s.insert(k, v) =~= s.take(k).push(v) + s.skip(k));
    assert(s =~= s.take(k) + s.skip(k));
    vstd::seq_lib::lemma_multiset_commutative(s.take(k).push(v), s.skip(k));
    vstd::seq_lib::lemma_multiset_commutative(s.take(k), s.skip(k));
    s.take(k).to_multiset_ensures();
    assert(s.take(k).push(v).to_multiset() == s.take(k).to_multiset().insert(v));
    assert(s.insert(k, v).to_multiset() =~= s.to_multiset().insert(v));
}

/// Appending one page extends the post listing by that page when it is a
/// post, and leaves it unchanged otherwise.
proof fn lemma_posts_of_push(pages: Seq<PageV>, p: PageV)
    ensures
        p.is_post ==> posts_of(pages.push(p)) == posts_of(pages).push(p),
        !p.is_post ==> posts_of(pages.push(p)) == posts_of(pages),
{
    reveal(Seq::filter);
    assert(pages.push(p).drop_last() =~= pages);
}

// ---------------------------------------------------------------------------
// The repository
// ---------------------------------------------------------------------------

/// The mathematical value of a repository: the stored pages in storage
/// order, the singleton settings record, and the next identity to assign.
pub struct RepoV {
    pub pages: Seq<PageV>,
    pub settings: SettingsV,
    pub next_id: int,
}

/// What every reachable repository satisfies: identities are unique,
/// positive, and below the next one to assign.
pub open spec fn repo_inv(r: RepoV) -> bool {
    &&& unique_ids(r.pages)
    &&& forall|i: int| 0 <= i < r.pages.len() ==> 1 <= (#[trigger] r.pages[i]).id < r.next_id
    &&& 1 <= r.next_id
}

/// The persistence boundary for pages and settings, modelled as the table
/// contents it stands for: lookup, listing, insert with identity assignment,
/// full-row update, delete, and the settings record (which always exists —
/// the migration bootstrap creates it and nothing deletes it).
pub struct Repository {
    pages: Vec<Page>,
    settings: Settings,
    next_id: i32,
}

impl View for Repository {
    type V = RepoV;

    closed spec fn view(&self) -> RepoV {
        RepoV {
            pages: self.pages.deep_view(),
            settings: self.settings@,
            next_id: self.next_id as int,
        }
    }
}

impl Repository {
    pub open spec fn inv(&self) -> bool {
        repo_inv(self@)
    }

    /// An empty repository as the migration bootstrap leaves it: no pages,
    /// the seeded settings record, identities starting at one.
    pub fn new() -> (r: Repository)
        ensures
            r.inv(),
            r@.pages.len() == 0,
            r@.next_id == 1,
            r@.settings.header_markdown.len() == 0,
            r@.settings.header_html.len() == 0,
            r@.settings.footer_markdown.len() == 0,
            r@.settings.footer_html.len() == 0,
            r@.settings.css.len() == 0,
            r@.settings.javascript.len() == 0,
            r@.settings.posts_per_page == 5,
    {
        let r = Repository { pages: Vec::new(), settings: Settings::seeded(), next_id: 1 };
        proof {
            assert(r@.pages =~= Seq::<PageV>::empty());
        }
        r
    }

    /// Rebuild a repository from stored rows: every identity must be unique
    /// and in the assignable range, else the stored data is corrupt
    /// (`StorageError`).  The next identity to assign is one past the
    /// largest stored one.
    pub fn load(pages: Vec<Page>, settings: Settings) -> (r: Result<Repository, Error>)
        ensures
            r is Ok <==> unique_ids(pages.deep_view()) && (forall|i: int|
                0 <= i < pages.deep_view().len() ==> 1 <= (#[trigger] pages.deep_view()[i]).id
                    < 0x7FFF_FFFF),
            r is Ok ==> r->Ok_0.inv() && r->Ok_0@.pages == pages.deep_view() && r->Ok_0@.settings
                == settings@,
            r is Err ==> r->Err_0 == Error::StorageError,
    {
        let ghost pv = pages.deep_view();
        let n = pages.len();
        let mut next: i32 = 1;
        let mut i: usize = 0;
        while i < n
            invariant
                i <= n,
                n == pv.len(),
                pv == pages.deep_view(),
                1 <= next <= 0x7FFF_FFFF,
                forall|j: int|
                    0 <= j < i ==> 1 <= (#[trigger] pv[j]).id < 0x7FFF_FFFF && pv[j].id < next,
                forall|j: int, k: int| 0 <= j < k < i ==> pv[j].id != pv[k].id,
            decreases n - i,
        {
            let id = pages[i].id;
            if id < 1 || id >= 0x7FFF_FFFF {
                proof {
                    assert(pv[i as int].id == id as int);
                }
                return Err(Error::StorageError);
            }
            let mut j: usize = 0;
            while j < i
                invariant
                    j <= i < n,
                    n == pv.len(),
                    pv == pages.deep_view(),
                    id as int == pv[i as int].id,
                    forall|k: int| 0 <= k < j ==> (#[trigger] pv[k]).id != id as int,
                decreases i - j,
            {
                if pages[j].id == id {
                    proof {
                        assert(pv[j as int].id == pv[i as int].id);
                        assert(!unique_ids(pv));
                    }
                    return Err(Error::StorageError);
                }
                j += 1;
            }
            if id >= next {
                next = id + 1;
            }
            i += 1;
        }
        Ok(Repository { pages, settings, next_id: next })
    }

    /// Look a page up by identity; with `only_posts` the lookup is filtered
    /// to blog posts, as the admin surface requires.
    pub fn find_by_id(&self, id: i32, only_posts: bool) -> (r: Option<&Page>)
        requires
            self.inv(),
        ensures
            r is Some <==> contains_id(self@.pages, id as int) && (only_posts
                ==> page_with_id(self@.pages, id as int).is_post),
            r is Some ==> r->0@ == page_with_id(self@.pages, id as int),
    {
        let n = self.pages.len();
        let mut i: usize = 0;
        while i < n
            invariant
                i <= n,
                n == self@.pages.len(),
                self.inv(),
                forall|j: int| 0 <= j < i ==> (#[trigger] self@.pages[j]).id != id as int,
            decreases n - i,
        {
            if self.pages[i].id == id {
                proof {
                    lemma_page_with_id(self@.pages, id as int, i as int);
                }
                if !only_posts || self.pages[i].is_post {
                    return Some(&self.pages[i]);
                } else {
                    return None;
                }
            }
            i += 1;
        }
        None
    }

    /// Insert a draft; the repository assigns the identity and returns it.
    pub fn insert(&mut self, draft: Page) -> (id: i32)
        requires
            old(self).inv(),
            old(self)@.next_id < 0x7FFF_FFFF,
        ensures
            final(self).inv(),
            id == old(self)@.next_id,
            final(self)@.pages == old(self)@.pages.push(
                (PageV { id: id as int, ..draft@ }),
            ),
            final(self)@.settings == old(self)@.settings,
            final(self)@.next_id == old(self)@.next_id + 1,
            contains_id(final(self)@.pages, id as int),
            page_with_id(final(self)@.pages, id as int) == (PageV { id: id as int, ..draft@ }),
    {
        let id = self.next_id;
        let mut page = draft;
        page.id = id;
        let ghost target = page@;
        self.pages.push(page);
        self.next_id = self.next_id + 1;
        proof {
            assert(self@.pages =~= old(self)@.pages.push(target));
            lemma_page_with_id(self@.pages, id as int, self@.pages.len() - 1);
        }
        id
    }

    /// Full-row replace of the page sharing `page`'s identity; `NotFound`
    /// when no page has it.
    pub fn update(&mut self, page: &Page) -> (r: Result<(), Error>)
        requires
            old(self).inv(),
        ensures
            final(self).inv(),
            final(self)@.settings == old(self)@.settings,
            final(self)@.next_id == old(self)@.next_id,
            contains_id(old(self)@.pages, page@.id) ==> r == Ok::<(), Error>(())
                && final(self)@.pages == replace_page(old(self)@.pages, page@),
            !contains_id(old(self)@.pages, page@.id) ==> r == Err::<(), Error>(Error::NotFound)
                && final(self)@.pages == old(self)@.pages,
    {
        let n = self.pages.len();
        let mut i: usize = 0;
        while i < n
            invariant
                i <= n,
                n == self@.pages.len(),
                self == old(self),
                self.inv(),
                forall|j: int| 0 <= j < i ==> (#[trigger] self@.pages[j]).id != page@.id,
            decreases n - i,
        {
            if self.pages[i].id == page.id {
                let replacement = page.clone();
                let ghost rv = replacement@;
                let ghost opages = self@.pages;
                let ghost ovec = self.pages@;
                let _ = self.pages.remove(i);
                self.pages.insert(i, replacement);
                proof {
                    assert(self.pages@ == ovec.remove(i as int).insert(i as int, self.pages@[i as int]));
                    assert(contains_id(opages, page@.id)) by {
                        assert(opages[i as int].id == page@.id);
                    }
                    assert(self@.pages =~= replace_page(opages, page@)) by {
                        assert forall|j: int|
                            0 <= j < opages.len() implies self@.pages[j] == replace_page(
                            opages,
                            page@,
                        )[j] by {
                            assert(replace_page(opages, page@)[j] == if opages[j].id == page@.id {
                                page@
                            } else {
                                opages[j]
                            });
                            if j == i {
                                assert(self.pages@[j] == ovec.remove(i as int).insert(
                                    i as int,
                                    self.pages@[i as int],
                                )[j]);
                                assert(self@.pages[j] == rv);
                            } else if j < i {
                                assert(opages[j].id != opages[i as int].id);
                                assert(self.pages@[j] == ovec[j]);
                            } else {
                                assert(opages[i as int].id != opages[j].id);
                                assert(self.pages@[j] == ovec[j]);
                            }
                        }
                    }
                }
                return Ok(());
            }
            i += 1;
        }
        Err(Error::NotFound)
    }

    /// Remove the page with this identity permanently; `NotFound` when no
    /// page has it.  Removing leaves every other page untouched.
    pub fn remove(&mut self, id: i32) -> (r: Result<(), Error>)
        requires
            old(self).inv(),
        ensures
            final(self).inv(),
            final(self)@.settings == old(self)@.settings,
            final(self)@.next_id == old(self)@.next_id,
            r is Ok <==> contains_id(old(self)@.pages, id as int),
            !contains_id(old(self)@.pages, id as int) ==> r == Err::<(), Error>(Error::NotFound)
                && final(self)@.pages == old(self)@.pages,
            contains_id(old(self)@.pages, id as int) ==> exists|i: int|
                0 <= i < old(self)@.pages.len() && (#[trigger] old(self)@.pages[i]).id == id as int
                    && final(self)@.pages == old(self)@.pages.remove(i),
            !contains_id(final(self)@.pages, id as int),
            forall|x: int|
                x != id as int ==> (contains_id(final(self)@.pages, x) <==> contains_id(
                    old(self)@.pages,
                    x,
                )),
            forall|x: int|
                x != id as int && contains_id(old(self)@.pages, x) ==> page_with_id(
                    final(self)@.pages,
                    x,
                ) == page_with_id(old(self)@.pages, x),
    {
        let n = self.pages.len();
        let mut i: usize = 0;
        while i < n
            invariant
                i <= n,
                n == self@.pages.len(),
                self.inv(),
                self == old(self),
                forall|j: int| 0 <= j < i ==> (#[trigger] self@.pages[j]).id != id as int,
            decreases n - i,
        {
            if self.pages[i].id == id {
                let _ = self.pages.remove(i);
                proof {
                    let opages = old(self)@.pages;
                    assert(contains_id(opages, id as int)) by {
                        assert(opages[i as int].id == id as int);
                    }
                    assert(self@.pages =~= opages.remove(i as int));
                    assert forall|x: int| x != id as int implies (contains_id(self@.pages, x)
                        <==> contains_id(opages, x)) by {
                        lemma_remove_keeps_others(opages, i as int, x);
                    }
                    assert forall|x: int|
                        x != id as int && contains_id(opages, x) implies page_with_id(
                        self@.pages,
                        x,
                    ) == page_with_id(opages, x) by {
                        lemma_remove_keeps_others(opages, i as int, x);
                        let k = choose|k: int|
                            0 <= k < self@.pages.len() && (#[trigger] self@.pages[k]).id == x;
                        lemma_page_with_id(self@.pages, x, k);
                        if k < i {
                            lemma_page_with_id(opages, x, k);
                        } else {
                            lemma_page_with_id(opages, x, k + 1);
                        }
                    }
                    assert(exists|k: int|
                        0 <= k < opages.len() && (#[trigger] opages[k]).id == id as int
                            && self@.pages == opages.remove(k)) by {
                        assert(opages[i as int].id == id as int && self@.pages == opages.remove(
                            i as int,
                        ));
                    }
                    assert(!contains_id(self@.pages, id as int)) by {
                        if contains_id(self@.pages, id as int) {
                            let k = choose|k: int|
                                0 <= k < self@.pages.len() && (#[trigger] self@.pages[k]).id
                                    == id as int;
                            if k < i {
                                assert(opages[k].id != opages[i as int].id);
                            } else {
                                assert(opages[i as int].id != opages[k + 1].id);
                            }
                        }
                    }
                }
                return Ok(());
            }
            i += 1;
        }
        Err(Error::NotFound)
    }

    /// Is there an identity left to assign?  (Callers outside verified code
    /// test this before inserting.)
    pub fn can_insert(&self) -> (r: bool)
        ensures
            r == (self@.next_id < 0x7FFF_FFFF),
    {
        self.next_id < 0x7FFF_FFFF
    }

    /// The singleton settings record; it always exists.
    pub fn get_settings(&self) -> (r: &Settings)
        ensures
            r@ == self@.settings,
    {
        &self.settings
    }

    /// Replace the singleton settings record (never creates a second one).
    pub fn update_settings(&mut self, settings: Settings)
        requires
            old(self).inv(),
        ensures
            final(self).inv(),
            final(self)@.settings == settings@,
            final(self)@.pages == old(self)@.pages,
            final(self)@.next_id == old(self)@.next_id,
    {
        self.settings = settings;
    }

    /// All blog posts, ordered by time descending with identity descending
    /// as the tie break; static pages are never listed.
    pub fn list_posts(&self) -> (r: Vec<Page>)
        requires
            self.inv(),
        ensures
            r.deep_view().to_multiset() == posts_of(self@.pages).to_multiset(),
            sorted_desc(r.deep_view()),
            forall|i: int| 0 <= i < r.deep_view().len() ==> (#[trigger] r.deep_view()[i]).is_post,
    {
        let n = self.pages.len();
        let mut result: Vec<Page> = Vec::new();
        let mut i: usize = 0;
        proof {
            assert(result.deep_view() =~= Seq::<PageV>::empty());
            assert(self@.pages.take(0) =~= Seq::<PageV>::empty());
            Seq::<PageV>::empty().to_multiset_ensures();
            assert(posts_of(Seq::<PageV>::empty()) =~= Seq::<PageV>::empty()) by {
                reveal(Seq::filter);
            }
            assert(Seq::<PageV>::empty().to_multiset() =~= Multiset::<PageV>::empty());
        }
        while i < n
            invariant
                i <= n,
                n == self@.pages.len(),
                self.inv(),
                sorted_desc(result.deep_view()),
                result.deep_view().to_multiset() == posts_of(
                    self@.pages.take(i as int),
                ).to_multiset(),
                forall|j: int|
                    0 <= j < result.deep_view().len() ==> (#[trigger] result.deep_view()[j]).is_post,
            decreases n - i,
        {
            let ghost prefix = self@.pages.take(i as int);
            let ghost cur = self@.pages[i as int];
            proof {
                assert(self@.pages.take(i + 1) =~= prefix.push(cur));
                lemma_posts_of_push(prefix, cur);
                posts_of(prefix).to_multiset_ensures();
            }
            if self.pages[i].is_post {
                insert_sorted(&mut result, self.pages[i].clone());
            }
            i += 1;
        }
        proof {
            assert(self@.pages.take(n as int) =~= self@.pages);
        }
        result
    }
}

/// Holds when removing index `i` from a uniquely-identified sequence: every
/// other identity is present afterwards exactly when it was before.
proof fn lemma_remove_keeps_others(pages: Seq<PageV>, i: int, x: int)
    requires
        unique_ids(pages),
        0 <= i < pages.len(),
        x != pages[i].id,
    ensures
        contains_id(pages.remove(i), x) <==> contains_id(pages, x),
{
    let removed = pages.remove(i);
    if contains_id(pages, x) {
        let k = choose|k: int| 0 <= k < pages.len() && (#[trigger] pages[k]).id == x;
        if k < i {
            assert(removed[k] == pages[k]);
        } else {
            assert(removed[k - 1] == pages[k]);
        }
    }
    if contains_id(removed, x) {
        let k = choose|k: int| 0 <= k < removed.len() && (#[trigger] removed[k]).id == x;
        if k < i {
            assert(pages[k] == removed[k]);
        } else {
            assert(pages[k + 1] == removed[k]);
        }
    }
}

/// Insert a page into a listing kept in descending order, at the position
/// that keeps the order.
fn insert_sorted(list: &mut Vec<Page>, p: Page)
    requires
        sorted_desc(old(list).deep_view()),
    ensures
        sorted_desc(final(list).deep_view()),
        final(list).deep_view().to_multiset() == old(list).deep_view().to_multiset().insert(p@),
        forall|j: int|
            0 <= j < final(list).deep_view().len() ==> (#[trigger] final(list).deep_view()[j])
                == p@ || old(list).deep_view().contains(final(list).deep_view()[j]),
{
    let n = list.len();
    let mut k: usize = 0;
    while k < n
        invariant
            k <= n,
            n == list.len(),
            list == old(list),
            forall|j: int| 0 <= j < k ==> gt_key((#[trigger] list.deep_view()[j]), p@),
        ensures
            k <= n,
            n == list.len(),
            list == old(list),
            forall|j: int| 0 <= j < k ==> gt_key((#[trigger] list.deep_view()[j]), p@),
            k < n ==> !gt_key(list.deep_view()[k as int], p@),
        decreases n - k,
    {
        if !gt_key_exec(&list[k], &p) {
            break;
        }
        k += 1;
    }
    let ghost oldv = list.deep_view();
    list.insert(k, p);
    proof {
        assert(list.deep_view() =~= oldv.insert(k as int, p@));
        lemma_insert_to_multiset(oldv, k as int, p@);
        let newv = list.deep_view();
        assert forall|a: int, b: int| 0 <= a < b < newv.len() implies ge_key(newv[a], newv[b]) by {
            if b < k {
                assert(newv[a] == oldv[a] && newv[b] == oldv[b]);
            } else if a < k && b == k {
                assert(newv[a] == oldv[a]);
                assert(gt_key(oldv[a], p@));
            } else if a < k && b > k {
                assert(newv[a] == oldv[a] && newv[b] == oldv[b - 1]);
                if b - 1 == k {
                    assert(gt_key(oldv[a], p@));
                    assert(!gt_key(oldv[k as int], p@));
                } else {
                    assert(ge_key(oldv[a], oldv[b - 1]));
                }
            } else if a == k {
                assert(newv[a] == p@ && newv[b] == oldv[b - 1]);
                assert(!gt_key(oldv[k as int], p@));
                if b - 1 > k {
                    assert(ge_key(oldv[k as int], oldv[b - 1]));
                }
            } else {
                assert(newv[a] == oldv[a - 1] && newv[b] == oldv[b - 1]);
            }
        }
        assert forall|j: int| 0 <= j < newv.len() implies (#[trigger] newv[j]) == p@
            || oldv.contains(newv[j]) by {
            if j < k {
                assert(newv[j] == oldv[j]);
            } else if j > k {
                assert(newv[j] == oldv[j - 1]);
            }
        }
    }
}

fn gt_key_exec(a: &Page, b: &Page) -> (r: bool)
    ensures
        r == gt_key(a@, b@),
{
    a.time > b.time || (a.time == b.time && a.id > b.id)
}

} // verus!
