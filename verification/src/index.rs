//! In-memory identifier indexes, built once by pre-scanning a reference
//! record stream and immutable afterwards.
//!
//! Each index maps a 32-bit source id to a target: a username, a single
//! post id, or the ordered sequence of post ids sharing one url. Entries
//! absent from an index mean "unknown id"; what that means for a record is
//! the join policy of the lookup method.

use vstd::prelude::*;

verus! {

use std::collections::HashMap;

use crate::remap::RemapError;

broadcast use vstd::std_specs::hash::group_hash_axioms;

/// Maps a user id to the user's name, for the author-to-username join.
/// Built by scanning a users file; a duplicate id keeps the last seen name.
pub struct UserIndex {
    map: HashMap<u32, String>,
}

impl View for UserIndex {
    type V = Map<u32, String>;

    closed spec fn view(&self) -> Map<u32, String> {
        self.map@
    }
}

impl UserIndex {
    /// An empty index: every id is unknown.
    pub fn new() -> (idx: Self)
        ensures
            idx@ == Map::<u32, String>::empty(),
    {
        UserIndex { map: HashMap::new() }
    }

    /// Records that `id` names the user `username`, replacing any earlier
    /// name recorded for `id`.
    pub fn insert(&mut self, id: u32, username: String)
        ensures
            final(self)@ == old(self)@.insert(id, username),
    {
        self.map.insert(id, username);
    }

    /// The username to substitute for the author id `id`, or `None` when
    /// the id is unknown. An unknown author is a soft miss: the caller
    /// forwards the record unchanged and reports a diagnostic.
    pub fn username_of(&self, id: u32) -> (r: Option<&String>)
        ensures
            r is Some <==> self@.contains_key(id),
            r matches Some(u) ==> *u == self@[id],
    {
        self.map.get(&id)
    }
}

/// Maps a url id to the single post id that references it, for the
/// one-to-one url-to-post join. Built by scanning a posts file; when
/// several posts share a url id, the last seen one wins.
pub struct PostIndex {
    map: HashMap<u32, u32>,
}

impl View for PostIndex {
    type V = Map<u32, u32>;

    closed spec fn view(&self) -> Map<u32, u32> {
        self.map@
    }
}

impl PostIndex {
    /// An empty index: every url id is unknown.
    pub fn new() -> (idx: Self)
        ensures
            idx@ == Map::<u32, u32>::empty(),
    {
        PostIndex { map: HashMap::new() }
    }

    /// Records that post `post_id` references url `url_id`, replacing any
    /// earlier post recorded for that url.
    pub fn insert(&mut self, url_id: u32, post_id: u32)
        ensures
            final(self)@ == old(self)@.insert(url_id, post_id),
    {
        self.map.insert(url_id, post_id);
    }

    /// The post id to substitute for `url_id`. This join assumes every url
    /// id present; an absent key is a hard referential miss that fails the
    /// whole stream rather than inventing or dropping data.
    pub fn post_for(&self, url_id: u32) -> (r: Result<u32, RemapError>)
        ensures
            self@.contains_key(url_id) ==> r == Ok::<u32, RemapError>(self@[url_id]),
            !self@.contains_key(url_id) ==> r == Err::<u32, RemapError>(
                RemapError::MissingKey(url_id),
            ),
    {
        match self.map.get(&url_id) {
            Some(post_id) => Ok(*post_id),
            None => Err(RemapError::MissingKey(url_id)),
        }
    }
}

/// What the one-to-many url-to-post join emits for an input record
/// carrying `url_id`: one output record per associated post id, in
/// first-seen order, and none at all when the url id is unknown.
pub open spec fn emitted_posts(m: Map<u32, Seq<u32>>, url_id: u32) -> Seq<u32> {
    if m.contains_key(url_id) {
        m[url_id]
    } else {
        Seq::empty()
    }
}

/// Maps a url id to every post id that references it, in first-seen order,
/// for the one-to-many url-to-post join.
pub struct MultiPostIndex {
    map: HashMap<u32, Vec<u32>>,
}

impl View for MultiPostIndex {
    type V = Map<u32, Seq<u32>>;

    closed spec fn view(&self) -> Map<u32, Seq<u32>> {
        Map::new(|k: u32| self.map@.contains_key(k), |k: u32| self.map@[k]@)
    }
}

impl MultiPostIndex {
    /// An empty index: every url id maps to no post at all.
    pub fn new() -> (idx: Self)
        ensures
            idx@ == Map::<u32, Seq<u32>>::empty(),
    {
        let idx = MultiPostIndex { map: HashMap::new() };
        proof {
            assert(idx@ =~= Map::<u32, Seq<u32>>::empty());
        }
        idx
    }

    /// Records that post `post_id` references url `url_id`, after every
    /// post already recorded for that url.
    pub fn add(&mut self, url_id: u32, post_id: u32)
        ensures
            final(self)@ == old(self)@.insert(
                url_id,
                if old(self)@.contains_key(url_id) {
                    old(self)@[url_id].push(post_id)
                } else {
                    seq![post_id]
                },
            ),
    {
        let mut posts = match self.map.remove(&url_id) {
            Some(posts) => posts,
            None => Vec::new(),
        };
        posts.push(post_id);
        self.map.insert(url_id, posts);
        proof {
            assert(self@ =~~= old(self)@.insert(
                url_id,
                if old(self)@.contains_key(url_id) {
                    old(self)@[url_id].push(post_id)
                } else {
                    seq![post_id]
                },
            ));
        }
    }

    /// The post ids to emit one record each for, in first-seen order, for
    /// an input record carrying `url_id`. A url id with no associated post
    /// yields the empty sequence: zero output records, not an error.
    pub fn posts_for(&self, url_id: u32) -> (r: Vec<u32>)
        ensures
            r@ == emitted_posts(self@, url_id),
    {
        match self.map.get(&url_id) {
            None => Vec::new(),
            Some(posts) => {
                let mut out: Vec<u32> = Vec::new();
                let mut i: usize = 0;
                while i < posts.len()
                    invariant
                        i <= posts@.len(),
                        out@ == posts@.take(i as int),
                    decreases posts@.len() - i,
                {
                    out.push(posts[i]);
                    proof {
                        assert(posts@.take(i + 1) =~= posts@.take(i as int).push(posts@[i as int]));
                    }
                    i = i + 1;
                }
                proof {
                    assert(posts@.take(posts@.len() as int) =~= posts@);
                }
                out
            },
        }
    }
}

} // verus!
