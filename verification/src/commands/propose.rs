//! A game that is proposed by hand.

use vstd::prelude::*;

use crate::common::contract;
use crate::common::contract::encode_extra_data;
use crate::common::fixed_bytes::B256;
use crate::common::primitives::GameIndex;
use crate::components::game_creator::GameRequest;

verus! {

/// What to propose.
#[derive(Clone, Copy, Debug, PartialEq, Eq)]
pub struct ProposeArgs {
    pub game_type: u32,
    /// The game to build on; without one, the game builds on the anchor root.
    pub parent_game_index: Option<GameIndex>,
    pub claim_block: u64,
    /// The claimed output root; without one, the node is asked for it.
    pub output_root: Option<B256>,
}

impl ProposeArgs {
    /// The game to build on. The greatest index stands for none.
    pub open spec fn parent(&self) -> GameIndex {
        match self.parent_game_index {
            Some(index) => index,
            None => GameIndex::MAX,
        }
    }

    /// Whether the node has to be asked for the output root.
    pub fn needs_output_root(&self) -> (r: bool)
        ensures
            r == (self.output_root is None),
    {
        self.output_root.is_none()
    }

    /// The proposed game. `fetched` is the output root that the node gives; it counts only where
    /// none was given.
    pub fn request(&self, fetched: B256) -> (r: GameRequest)
        ensures
            r.claim_block == self.claim_block,
            r.output_root == (match self.output_root {
                Some(root) => root,
                None => fetched,
            }),
            r.extra_data@ == contract::extra_data(self.claim_block, self.parent()),
    {
        let parent_game_index: GameIndex = match self.parent_game_index {
            Some(index) => index,
            None => GameIndex::MAX,
        };
        let output_root = match self.output_root {
            Some(root) => root,
            None => fetched,
        };
        GameRequest {
            claim_block: self.claim_block,
            output_root,
            extra_data: encode_extra_data(self.claim_block, parent_game_index),
        }
    }
}

} // verus!
