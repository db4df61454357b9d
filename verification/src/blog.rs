//! The blog record manager: `Blog` records keyed by (owner, title) and
//! `Post` records keyed by (parent blog key, title). Both are created once
//! and never edited or deleted; a post's author must be its parent blog's
//! stored authority.
//!
//! A `BlogLedger` stands for the slice of account storage that holds blogs
//! and posts; the collaborator's at-most-one-record-per-key guarantee is its
//! invariant here.

use vstd::prelude::*;
use vstd::string::StrSliceExecFns;
use vstd::string::StringSliceAdditionalSpecFns;
use vstd::utf8::encode_utf8;
use vstd::utf8::encode_utf8_decode_utf8;

use crate::errors::DeBlogError;
use crate::identity::Identity;
use crate::identity::IDENTITY_LEN;
use crate::seeds::blog_seed;
use crate::seeds::blog_seed_spec;

verus! {

/// Longest blog title, in characters.
pub const MAX_BLOG_TITLE_LENGTH: usize = 256;

/// Longest blog description, in characters.
pub const MAX_BLOG_DESCRIPTION_LENGTH: usize = 1024;

/// Longest post body, in characters.
pub const MAX_POST_BODY_LENGTH: usize = 65536;

/// Character-for-character equality of two texts, decided on their UTF-8
/// bytes.
pub fn text_equal(a: &str, b: &str) -> (r: bool)
    ensures
        r == (a@ == b@),
{
    let ab = a.as_bytes();
    let bb = b.as_bytes();
    if ab.len() != bb.len() {
        assert(a@ != b@);
        return false;
    }
    let n = ab.len();
    let mut i: usize = 0;
    while i < n
        invariant
            i <= n,
            n == ab@.len(),
            n == bb@.len(),
            ab@ == a.spec_bytes(),
            bb@ == b.spec_bytes(),
            forall|k: int| 0 <= k < i ==> ab@[k] == bb@[k],
        decreases n - i,
    {
        if ab[i] != bb[i] {
            assert(ab@[i as int] != bb@[i as int]);
            assert(a@ != b@);
            return false;
        }
        i += 1;
    }
    proof {
        assert(a.spec_bytes() =~= b.spec_bytes());
        encode_utf8_decode_utf8(a@);
        encode_utf8_decode_utf8(b@);
    }
    true
}

/// Byte-for-byte equality of two key strings.
fn bytes_equal(a: &Vec<u8>, b: &Vec<u8>) -> (r: bool)
    ensures
        r == (a@ == b@),
{
    if a.len() != b.len() {
        assert(a@ != b@);
        return false;
    }
    let n = a.len();
    let mut i: usize = 0;
    while i < n
        invariant
            i <= n,
            n == a@.len(),
            n == b@.len(),
            forall|k: int| 0 <= k < i ==> a@[k] == b@[k],
        decreases n - i,
    {
        if a[i] != b[i] {
            assert(a@[i as int] != b@[i as int]);
            return false;
        }
        i += 1;
    }
    assert(a@ =~= b@);
    true
}

/// A blog record. Immutable once created: no edit or delete exists for it.
#[derive(Debug, PartialEq, Eq)]
pub struct Blog {
    pub authority: Identity,
    pub title: String,
    pub description: String,
}

impl Blog {
    /// Field bounds of a stored blog.
    pub open spec fn wf(&self) -> bool {
        &&& self.authority@.len() == IDENTITY_LEN
        &&& self.title@.len() <= MAX_BLOG_TITLE_LENGTH
        &&& self.description@.len() <= MAX_BLOG_DESCRIPTION_LENGTH
    }

    /// The key material this blog's storage address is derived from.
    pub open spec fn key(&self) -> Seq<u8> {
        blog_seed_spec(self.authority@, self.title@)
    }

    /// Derives this blog's key material.
    pub fn key_bytes(&self) -> (r: Vec<u8>)
        ensures
            r@ == self.key(),
    {
        blog_seed(&self.authority, self.title.as_str())
    }
}

/// A post record: a back-reference to its parent blog's key, and a body.
/// Immutable once created.
#[derive(Debug, PartialEq, Eq)]
pub struct Post {
    pub blog: Vec<u8>,
    pub body: String,
}

impl Post {
    /// Field bounds of a stored post.
    pub open spec fn wf(&self) -> bool {
        self.body@.len() <= MAX_POST_BODY_LENGTH
    }
}

/// A post together with the title its key was derived from; the title names
/// the post but is not part of the record itself.
#[derive(Debug, PartialEq, Eq)]
pub struct StoredPost {
    pub title: String,
    pub post: Post,
}

/// True when `b` sits at the slot named by `(owner, title)`.
pub open spec fn blog_at(b: Blog, owner: Seq<u8>, title: Seq<char>) -> bool {
    &&& b.authority@ == owner
    &&& b.title@ == title
}

/// True when two blogs share their identifying fields.
pub open spec fn same_blog_slot(a: Blog, b: Blog) -> bool {
    &&& a.authority@ == b.authority@
    &&& a.title@ == b.title@
}

/// True when `sp` sits at the slot named by `(blog_key, title)`.
pub open spec fn post_at(sp: StoredPost, blog_key: Seq<u8>, title: Seq<char>) -> bool {
    &&& sp.post.blog@ == blog_key
    &&& sp.title@ == title
}

/// True when two posts share their identifying fields.
pub open spec fn same_post_slot(a: StoredPost, b: StoredPost) -> bool {
    &&& a.post.blog@ == b.post.blog@
    &&& a.title@ == b.title@
}

/// The blog manager's slice of record storage.
pub struct BlogLedger {
    blogs: Vec<Blog>,
    posts: Vec<StoredPost>,
}

impl BlogLedger {
    /// The stored blogs, in creation order.
    pub closed spec fn blogs(&self) -> Seq<Blog> {
        self.blogs@
    }

    /// The stored posts, in creation order.
    pub closed spec fn posts(&self) -> Seq<StoredPost> {
        self.posts@
    }

    /// Every record is well formed and no two records share a slot.
    pub open spec fn wf(&self) -> bool {
        &&& (forall|i: int| 0 <= i < self.blogs().len() ==> (#[trigger] self.blogs()[i]).wf())
        &&& (forall|i: int, j: int|
            #![trigger self.blogs()[i], self.blogs()[j]]
            0 <= i < j < self.blogs().len() ==> !same_blog_slot(self.blogs()[i], self.blogs()[j]))
        &&& (forall|i: int| 0 <= i < self.posts().len() ==> (#[trigger] self.posts()[i]).post.wf())
        &&& (forall|i: int, j: int|
            #![trigger self.posts()[i], self.posts()[j]]
            0 <= i < j < self.posts().len() ==> !same_post_slot(self.posts()[i], self.posts()[j]))
    }

    /// True when some blog sits at the slot named by `(owner, title)`.
    pub open spec fn has_blog(&self, owner: Seq<u8>, title: Seq<char>) -> bool {
        exists|i: int| 0 <= i < self.blogs().len() && blog_at(#[trigger] self.blogs()[i], owner, title)
    }

    /// True when some post sits at the slot named by `(blog_key, title)`.
    pub open spec fn has_post(&self, blog_key: Seq<u8>, title: Seq<char>) -> bool {
        exists|i: int| 0 <= i < self.posts().len() && post_at(#[trigger] self.posts()[i], blog_key, title)
    }

    /// Which way a blog creation must go: title checked first, then
    /// description, then the slot's uniqueness.
    pub open spec fn create_blog_result(&self, owner: Seq<u8>, title: Seq<char>, description: Seq<char>) -> Result<(), DeBlogError> {
        if title.len() > MAX_BLOG_TITLE_LENGTH {
            Err(DeBlogError::TitleTooLong)
        } else if description.len() > MAX_BLOG_DESCRIPTION_LENGTH {
            Err(DeBlogError::DescriptionTooLong)
        } else if self.has_blog(owner, title) {
            Err(DeBlogError::DefaultError)
        } else {
            Ok(())
        }
    }

    /// Which way a post creation must go: the parent blog must exist, the
    /// author must be its stored authority — whatever the body looks like —
    /// then the body is checked, then the slot's uniqueness.
    pub open spec fn create_post_result(&self, author: Seq<u8>, blog_owner: Seq<u8>, blog_title: Seq<char>, title: Seq<char>, body: Seq<char>) -> Result<(), DeBlogError> {
        if !self.has_blog(blog_owner, blog_title) {
            Err(DeBlogError::DefaultError)
        } else if author != blog_owner {
            Err(DeBlogError::InvalidAuthor)
        } else if body.len() > MAX_POST_BODY_LENGTH {
            Err(DeBlogError::BodyTooLong)
        } else if self.has_post(blog_seed_spec(blog_owner, blog_title), title) {
            Err(DeBlogError::DefaultError)
        } else {
            Ok(())
        }
    }

    /// An empty ledger.
    pub fn new() -> (r: BlogLedger)
        ensures
            r.wf(),
            r.blogs() == Seq::<Blog>::empty(),
            r.posts() == Seq::<StoredPost>::empty(),
    {
        BlogLedger { blogs: Vec::new(), posts: Vec::new() }
    }

    /// How many blogs are stored.
    pub fn blog_count(&self) -> (r: usize)
        ensures
            r == self.blogs().len(),
    {
        self.blogs.len()
    }

    /// How many posts are stored.
    pub fn post_count(&self) -> (r: usize)
        ensures
            r == self.posts().len(),
    {
        self.posts.len()
    }

    /// The index of the blog at `(owner, title)`, if any.
    fn find_blog_index(&self, owner: &Identity, title: &str) -> (r: Option<usize>)
        ensures
            r matches Some(i) ==> i < self.blogs().len() && blog_at(self.blogs()[i as int], owner@, title@),
            r is None ==> !self.has_blog(owner@, title@),
    {
        let n = self.blogs.len();
        let mut i: usize = 0;
        while i < n
            invariant
                i <= n,
                n == self.blogs().len(),
                forall|k: int| 0 <= k < i ==> !blog_at(#[trigger] self.blogs()[k], owner@, title@),
            decreases n - i,
        {
            let b = &self.blogs[i];
            if b.authority.same_as(owner) && text_equal(b.title.as_str(), title) {
                return Some(i);
            }
            i += 1;
        }
        None
    }

    /// The index of the post at `(blog_key, title)`, if any.
    fn find_post_index(&self, blog_key: &Vec<u8>, title: &str) -> (r: Option<usize>)
        ensures
            r matches Some(i) ==> i < self.posts().len() && post_at(self.posts()[i as int], blog_key@, title@),
            r is None ==> !self.has_post(blog_key@, title@),
    {
        let n = self.posts.len();
        let mut i: usize = 0;
        while i < n
            invariant
                i <= n,
                n == self.posts().len(),
                forall|k: int| 0 <= k < i ==> !post_at(#[trigger] self.posts()[k], blog_key@, title@),
            decreases n - i,
        {
            let sp = &self.posts[i];
            if bytes_equal(&sp.post.blog, blog_key) && text_equal(sp.title.as_str(), title) {
                return Some(i);
            }
            i += 1;
        }
        None
    }

    /// The blog at `(owner, title)`, if any.
    pub fn get_blog(&self, owner: &Identity, title: &str) -> (r: Option<&Blog>)
        ensures
            r matches Some(b) ==> blog_at(*b, owner@, title@)
                && exists|i: int| 0 <= i < self.blogs().len() && #[trigger] self.blogs()[i] == *b,
            r is None ==> !self.has_blog(owner@, title@),
    {
        match self.find_blog_index(owner, title) {
            Some(i) => Some(&self.blogs[i]),
            None => None,
        }
    }

    /// The post titled `title` under the blog at `(blog_owner, blog_title)`,
    /// if any.
    pub fn get_post(&self, blog_owner: &Identity, blog_title: &str, title: &str) -> (r: Option<&Post>)
        ensures
            r matches Some(p) ==> p.blog@ == blog_seed_spec(blog_owner@, blog_title@)
                && exists|i: int| 0 <= i < self.posts().len()
                    && post_at(#[trigger] self.posts()[i], blog_seed_spec(blog_owner@, blog_title@), title@)
                    && self.posts()[i].post == *p,
            r is None ==> !self.has_post(blog_seed_spec(blog_owner@, blog_title@), title@),
    {
        let key = blog_seed(blog_owner, blog_title);
        match self.find_post_index(&key, title) {
            Some(i) => Some(&self.posts[i].post),
            None => None,
        }
    }

    /// Creates `owner`'s blog under `title`. Fails with `TitleTooLong` or
    /// `DescriptionTooLong` on an oversize text, and with the generic error
    /// when the slot is already taken; on success the new record, with the
    /// owner as its authority, is appended and nothing else changes.
    pub fn create_blog(&mut self, owner: Identity, title: String, description: String) -> (r: Result<(), DeBlogError>)
        requires
            old(self).wf(),
            owner.wf(),
        ensures
            final(self).wf(),
            r == old(self).create_blog_result(owner@, title@, description@),
            final(self).posts() == old(self).posts(),
            r is Err ==> final(self).blogs() == old(self).blogs(),
            r is Ok ==> final(self).blogs() == old(self).blogs().push(
                (Blog { authority: owner, title, description })),
            r is Ok ==> final(self).has_blog(owner@, title@),
    {
        if title.as_str().unicode_len() > MAX_BLOG_TITLE_LENGTH {
            return Err(DeBlogError::TitleTooLong);
        }
        if description.as_str().unicode_len() > MAX_BLOG_DESCRIPTION_LENGTH {
            return Err(DeBlogError::DescriptionTooLong);
        }
        if self.find_blog_index(&owner, title.as_str()).is_some() {
            return Err(DeBlogError::DefaultError);
        }
        let blog = Blog { authority: owner, title, description };
        self.blogs.push(blog);
        proof {
            let s = self.blogs();
            let prev = old(self).blogs();
            assert forall|i: int| 0 <= i < s.len() implies (#[trigger] s[i]).wf() by {
                if i < prev.len() {
                    assert(s[i] == prev[i]);
                }
            }
            assert forall|i: int, j: int|
                #![trigger s[i], s[j]]
                0 <= i < j < s.len() implies !same_blog_slot(s[i], s[j]) by {
                if j < prev.len() {
                    assert(s[i] == prev[i] && s[j] == prev[j]);
                } else {
                    assert(s[i] == prev[i]);
                    assert(!blog_at(prev[i], owner@, title@));
                }
            }
            assert(blog_at(s[prev.len() as int], owner@, title@));
            let ps = self.posts();
            let pprev = old(self).posts();
            assert forall|i: int| 0 <= i < ps.len() implies (#[trigger] ps[i]).post.wf() by {
                assert(ps[i] == pprev[i]);
            }
            assert forall|i: int, j: int|
                #![trigger ps[i], ps[j]]
                0 <= i < j < ps.len() implies !same_post_slot(ps[i], ps[j]) by {
                assert(ps[i] == pprev[i] && ps[j] == pprev[j]);
            }
        }
        Ok(())
    }

    /// Creates a post titled `title` under the blog at
    /// `(blog_owner, blog_title)`. Fails with the generic error when that
    /// blog does not exist or when the post's slot is already taken, with
    /// `InvalidAuthor` whenever the author is not the blog's stored
    /// authority — however long the body — and with `BodyTooLong` on an
    /// oversize body; on success the new record, carrying the parent blog's
    /// key, is appended and nothing else changes.
    pub fn create_post(&mut self, author: &Identity, blog_owner: &Identity, blog_title: &str, title: String, body: String) -> (r: Result<(), DeBlogError>)
        requires
            old(self).wf(),
            author.wf(),
        ensures
            final(self).wf(),
            r == old(self).create_post_result(author@, blog_owner@, blog_title@, title@, body@),
            final(self).blogs() == old(self).blogs(),
            r is Err ==> final(self).posts() == old(self).posts(),
            r is Ok ==> ({
                let sp = final(self).posts().last();
                &&& final(self).posts() == old(self).posts().push(sp)
                &&& post_at(sp, blog_seed_spec(blog_owner@, blog_title@), title@)
                &&& sp.post.body@ == body@
            }),
            r is Ok ==> final(self).has_post(blog_seed_spec(blog_owner@, blog_title@), title@),
    {
        let idx = match self.find_blog_index(blog_owner, blog_title) {
            None => {
                return Err(DeBlogError::DefaultError);
            },
            Some(i) => i,
        };
        if !author.same_as(&self.blogs[idx].authority) {
            return Err(DeBlogError::InvalidAuthor);
        }
        if body.as_str().unicode_len() > MAX_POST_BODY_LENGTH {
            return Err(DeBlogError::BodyTooLong);
        }
        let key = blog_seed(blog_owner, blog_title);
        if self.find_post_index(&key, title.as_str()).is_some() {
            return Err(DeBlogError::DefaultError);
        }
        let sp = StoredPost { title, post: Post { blog: key, body } };
        self.posts.push(sp);
        proof {
            let s = self.posts();
            let prev = old(self).posts();
            let k = blog_seed_spec(blog_owner@, blog_title@);
            assert forall|i: int| 0 <= i < s.len() implies (#[trigger] s[i]).post.wf() by {
                if i < prev.len() {
                    assert(s[i] == prev[i]);
                }
            }
            assert forall|i: int, j: int|
                #![trigger s[i], s[j]]
                0 <= i < j < s.len() implies !same_post_slot(s[i], s[j]) by {
                if j < prev.len() {
                    assert(s[i] == prev[i] && s[j] == prev[j]);
                } else {
                    assert(s[i] == prev[i]);
                    assert(!post_at(prev[i], k, s[j].title@));
                }
            }
            assert(post_at(s[prev.len() as int], k, s[prev.len() as int].title@));
            let bs = self.blogs();
            let bprev = old(self).blogs();
            assert forall|i: int| 0 <= i < bs.len() implies (#[trigger] bs[i]).wf() by {
                assert(bs[i] == bprev[i]);
            }
            assert forall|i: int, j: int|
                #![trigger bs[i], bs[j]]
                0 <= i < j < bs.len() implies !same_blog_slot(bs[i], bs[j]) by {
                assert(bs[i] == bprev[i] && bs[j] == bprev[j]);
            }
        }
        Ok(())
    }
}

/// Validates the texts and builds the record a successful blog creation
/// persists: title then description are length-checked, and the new blog's
/// authority is the owner who signed the creation.
pub fn initialize_blog(owner: Identity, title: String, description: String) -> (r: Result<Blog, DeBlogError>)
    requires
        owner.wf(),
    ensures
        title@.len() > MAX_BLOG_TITLE_LENGTH ==> r == Err::<Blog, DeBlogError>(DeBlogError::TitleTooLong),
        title@.len() <= MAX_BLOG_TITLE_LENGTH && description@.len() > MAX_BLOG_DESCRIPTION_LENGTH
            ==> r == Err::<Blog, DeBlogError>(DeBlogError::DescriptionTooLong),
        title@.len() <= MAX_BLOG_TITLE_LENGTH && description@.len() <= MAX_BLOG_DESCRIPTION_LENGTH
            ==> r == Ok::<Blog, DeBlogError>((Blog { authority: owner, title, description })),
{
    if title.as_str().unicode_len() > MAX_BLOG_TITLE_LENGTH {
        return Err(DeBlogError::TitleTooLong);
    }
    if description.as_str().unicode_len() > MAX_BLOG_DESCRIPTION_LENGTH {
        return Err(DeBlogError::DescriptionTooLong);
    }
    Ok(Blog { authority: owner, title, description })
}

/// Validates authorship and builds the record a successful post creation
/// persists. The author is checked against the parent blog's stored
/// authority before the body is looked at, so an outsider is refused as
/// `InvalidAuthor` however long the body; the new post carries the parent
/// blog's key.
pub fn initialize_post(author: &Identity, blog: &Blog, body: String) -> (r: Result<Post, DeBlogError>)
    requires
        blog.wf(),
    ensures
        author@ != blog.authority@ ==> r == Err::<Post, DeBlogError>(DeBlogError::InvalidAuthor),
        author@ == blog.authority@ && body@.len() > MAX_POST_BODY_LENGTH
            ==> r == Err::<Post, DeBlogError>(DeBlogError::BodyTooLong),
        author@ == blog.authority@ && body@.len() <= MAX_POST_BODY_LENGTH
            ==> (r matches Ok(p) && p.blog@ == blog.key() && p.body@ == body@ && p.wf()),
{
    if !author.same_as(&blog.authority) {
        return Err(DeBlogError::InvalidAuthor);
    }
    if body.as_str().unicode_len() > MAX_POST_BODY_LENGTH {
        return Err(DeBlogError::BodyTooLong);
    }
    Ok(Post { blog: blog.key_bytes(), body })
}

/// Law: the derived key material pins down exactly the identifying fields —
/// two well-formed blogs share a key precisely when they share a slot, so
/// rejecting duplicate keys is rejecting duplicate `(owner, title)` pairs.
pub proof fn lemma_blog_key_injective(a: Blog, b: Blog)
    requires
        a.wf(),
        b.wf(),
    ensures
        (a.key() == b.key()) <==> same_blog_slot(a, b),
{
    if a.key() == b.key() {
        assert forall|k: int| 0 <= k < IDENTITY_LEN implies a.authority@[k] == b.authority@[k] by {
            assert(a.key()[k] == b.key()[k]);
        }
        assert(a.authority@ =~= b.authority@);
        let ta = encode_utf8(a.title@);
        let tb = encode_utf8(b.title@);
        assert(a.key() == a.authority@ + ta);
        assert(b.key() == b.authority@ + tb);
        assert(ta.len() == tb.len());
        assert forall|k: int| 0 <= k < ta.len() implies ta[k] == tb[k] by {
            assert((a.authority@ + ta)[IDENTITY_LEN + k] == ta[k]);
            assert((b.authority@ + tb)[IDENTITY_LEN + k] == tb[k]);
            assert(a.key()[IDENTITY_LEN + k] == b.key()[IDENTITY_LEN + k]);
        }
        assert(ta =~= tb);
        encode_utf8_decode_utf8(a.title@);
        encode_utf8_decode_utf8(b.title@);
    }
    if same_blog_slot(a, b) {
        assert(a.key() == b.key());
    }
}

/// Law: blogs are unique per `(owner, title)`. Once a blog creation for that
/// slot has succeeded and appended its record, an identical creation on the
/// resulting ledger fails.
pub proof fn lemma_second_blog_create_fails(before: BlogLedger, after: BlogLedger, b: Blog, owner: Seq<u8>, title: Seq<char>, description: Seq<char>)
    requires
        before.create_blog_result(owner, title, description) is Ok,
        blog_at(b, owner, title),
        after.blogs() == before.blogs().push(b),
    ensures
        after.create_blog_result(owner, title, description)
            == Err::<(), DeBlogError>(DeBlogError::DefaultError),
{
    assert(after.blogs()[before.blogs().len() as int] == b);
    assert(after.has_blog(owner, title));
}

} // verus!
