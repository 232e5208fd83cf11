use vstd::prelude::*;

verus! {

#[derive(Debug, Clone, Copy, PartialEq, Eq, Structural)]
pub enum GameError {
    /// No bullet kind is registered under `idx`.
    BulletNotFound { idx: usize },
}

pub type GameResult<T> = Result<T, GameError>;

} // verus!
