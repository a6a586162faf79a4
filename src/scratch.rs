//! Spare worlds kept between frames, so that a loan does not build a new world
//! each time a world is moved out of its slot.

use crate::world::World;
use vstd::prelude::*;

verus! {

/// Which side a spare world stands in for while the real one is on loan.
#[derive(Debug, Clone, Copy, PartialEq, Eq, Structural)]
pub enum Role {
    Render,
    App,
}

/// One spare world per role, and how many worlds the cache has had to build.
pub struct ScratchCache {
    render: Option<World>,
    app: Option<World>,
    created: u64,
}

/// `n + 1`, held at the largest `u64`.
pub open spec fn saturating_inc(n: u64) -> u64 {
    if n < u64::MAX {
        (n + 1) as u64
    } else {
        n
    }
}

impl ScratchCache {
    /// The spare world kept for `role`, if any.
    pub closed spec fn cached(&self, role: Role) -> Option<World> {
        match role {
            Role::Render => self.render,
            Role::App => self.app,
        }
    }

    /// How many worlds the cache has built because none was kept.
    pub closed spec fn created(&self) -> u64 {
        self.created
    }

    /// How many worlds the cache has built once `take` has run for `role`.
    pub open spec fn created_after_take(&self, role: Role) -> u64 {
        if self.cached(role) is Some {
            self.created()
        } else {
            saturating_inc(self.created())
        }
    }

    /// The cache after `take`.
    pub closed spec fn after_take(&self, role: Role) -> ScratchCache {
        match role {
            Role::Render => ScratchCache {
                render: None,
                app: self.app,
                created: if self.render is Some { self.created } else { saturating_inc(self.created) },
            },
            Role::App => ScratchCache {
                render: self.render,
                app: None,
                created: if self.app is Some { self.created } else { saturating_inc(self.created) },
            },
        }
    }

    /// The cache after `put`.
    pub closed spec fn after_put(&self, role: Role, w: World) -> ScratchCache {
        match role {
            Role::Render => ScratchCache { render: Some(w), app: self.app, created: self.created },
            Role::App => ScratchCache { render: self.render, app: Some(w), created: self.created },
        }
    }
    /// The cache after `ws.len()` rounds of taking the spare world of `role` and
    /// putting `ws[i]` back in its place.
    pub open spec fn cycled(&self, role: Role, ws: Seq<World>) -> ScratchCache
        decreases ws.len(),
    {
        if ws.len() == 0 {
            *self
        } else {
            self.cycled(role, ws.drop_last()).after_take(role).after_put(role, ws.last())
        }
    }

    pub fn new() -> (c: ScratchCache)
        ensures
            c.cached(Role::Render) is None,
            c.cached(Role::App) is None,
            c.created() == 0,
    {
        ScratchCache { render: None, app: None, created: 0 }
    }

    /// How many worlds the cache has built because none was kept.
    pub fn created_count(&self) -> (r: u64)
        ensures
            r == self.created(),
    {
        self.created
    }

    /// Hands out the spare world of `role`, building an empty one if none is kept.
    pub fn take(&mut self, role: Role) -> (w: World)
        ensures
            *final(self) == old(self).after_take(role),
            final(self).cached(role) is None,
            final(self).created() == old(self).created_after_take(role),
            forall|o: Role| o != role ==> final(self).cached(o) == old(self).cached(o),
            match old(self).cached(role) {
                Some(c) => w == c,
                None => w.is_empty(),
            },
    {
        let kept = match role {
            Role::Render => self.render.take(),
            Role::App => self.app.take(),
        };
        match kept {
            Some(w) => w,
            None => {
                if self.created < u64::MAX {
                    self.created = self.created + 1;
                }
                World::new()
            },
        }
    }

    /// Keeps `w` as the spare world of `role`; its entities must be cleared.
    pub fn put(&mut self, role: Role, w: World)
        requires
            w.slots().len() == 0,
        ensures
            *final(self) == old(self).after_put(role, w),
            final(self).cached(role) == Some(w),
            final(self).created() == old(self).created(),
            forall|o: Role| o != role ==> final(self).cached(o) == old(self).cached(o),
    {
        match role {
            Role::Render => {
                self.render = Some(w);
            },
            Role::App => {
                self.app = Some(w);
            },
        }
    }
}

/// Taking and putting back the spare world of one role builds a world at most
/// once, in the first round: every later round reuses the world put back.
pub proof fn lemma_reuse_builds_nothing(c: ScratchCache, role: Role, ws: Seq<World>)
    ensures
        c.cycled(role, ws).created() == if ws.len() == 0 {
            c.created()
        } else {
            c.created_after_take(role)
        },
        ws.len() > 0 ==> c.cycled(role, ws).cached(role) == Some(ws.last()),
    decreases ws.len(),
{
    if ws.len() > 1 {
        lemma_reuse_builds_nothing(c, role, ws.drop_last());
    } else if ws.len() == 1 {
        assert(c.cycled(role, ws.drop_last()) == c);
    }
}

} // verus!
