//! The boundary through which threads share the one live simulation state.
//!
//! A [`SharedSimulationState`] keeps the state behind a reader-writer lock.
//! A writer has the state to itself for as long as its function runs;
//! readers may run side by side. The lock admits well-formed states only,
//! so whatever the order in which threads come and go, nobody ever finds a
//! grid whose cells do not match its dimensions, and every function handed
//! in may rely on that.

use vstd::prelude::*;
use vstd::rwlock::RwLock;
use vstd::rwlock::RwLockPredicate;
use crate::game::Game;

verus! {

/// What the lock admits: well-formed states.
pub struct WellFormed;

impl RwLockPredicate<Game> for WellFormed {
    open spec fn inv(self, game: Game) -> bool {
        game.wf()
    }
}

/// The one live simulation state, shared between threads.
pub struct SharedSimulationState {
    lock: RwLock<Game, WellFormed>,
}

impl SharedSimulationState {
    /// Puts `game` behind the lock. A state that is not well-formed is
    /// turned away.
    pub fn new(game: Game) -> (shared: Option<SharedSimulationState>)
        ensures
            shared is Some <==> game.wf(),
    {
        if game.is_well_formed() {
            Some(SharedSimulationState { lock: RwLock::new(game, Ghost(WellFormed)) })
        } else {
            None
        }
    }

    /// Runs `read` on the state while no writer has it, and hands back
    /// what `read` returns.
    ///
    /// `read` has to cope with every well-formed state, and it is run on
    /// one: which one depends on the writers that came before.
    pub fn with_read<T, F: FnOnce(&Game) -> T>(&self, read: F) -> (r: T)
        requires
            forall|game: Game| game.wf() ==> #[trigger] read.requires((&game,)),
        ensures
            exists|game: Game| game.wf() && #[trigger] read.ensures((&game,), r),
    {
        let handle = self.lock.acquire_read();
        let r = read(handle.borrow());
        handle.release_read();
        r
    }

    /// Runs `write` on the state while nobody else has it, keeps the state
    /// that `write` hands back, and returns what `write` returns with it.
    ///
    /// `write` has to cope with every well-formed state and to leave a
    /// well-formed one. It is run on one well-formed state, and the state
    /// that it leaves is the one that whoever comes next finds: nobody sees
    /// anything in between.
    pub fn with_write<T, F: FnOnce(Game) -> (Game, T)>(&self, write: F) -> (r: T)
        requires
            forall|game: Game| game.wf() ==> #[trigger] write.requires((game,)),
            forall|game: Game, out: (Game, T)|
                game.wf() && #[trigger] write.ensures((game,), out) ==> out.0.wf(),
        ensures
            exists|before: Game, after: Game|
                before.wf() && after.wf() && #[trigger] write.ensures((before,), (after, r)),
    {
        let (game, handle) = self.lock.acquire_write();
        let (game, r) = write(game);
        handle.release_write(game);
        r
    }
}

} // verus!
