//! Draw offer/accept decision logic.

use vstd::prelude::*;

verus! {

/// Decision after evaluating a draw situation.
#[derive(Debug, Clone, Copy, PartialEq, Eq, Structural)]
pub enum DrawDecision {
    /// Accept the opponent's draw offer.
    Accept,
    /// Offer a draw to the opponent.
    Offer,
    /// Continue playing.
    PlayOn,
}

/// The draw decision for a search score (from the engine's side), a
/// contempt factor, a game phase (0 endgame .. 24 middlegame) and whether
/// the opponent offered a draw.
pub open spec fn draw_decision(score: int, contempt: int, phase: int, opponent_offered: bool) -> DrawDecision {
    if opponent_offered && score <= -contempt {
        DrawDecision::Accept
    } else if !opponent_offered && contempt <= 0 && phase <= 6 && -10 <= score <= 10 {
        DrawDecision::Offer
    } else {
        DrawDecision::PlayOn
    }
}

/// Decide whether to accept, offer, or decline a draw.
///
/// * **Accept**: opponent offered AND `score <= -contempt`.
/// * **Offer**: opponent did NOT offer AND `contempt <= 0` AND `phase <= 6` AND `score.abs() <= 10`.
/// * **PlayOn**: everything else.
pub fn decide_draw(score: i32, contempt: i32, phase: i32, opponent_offered: bool) -> (r: DrawDecision)
    requires
        opponent_offered ==> contempt != i32::MIN,
        !opponent_offered && contempt <= 0 && phase <= 6 ==> score != i32::MIN,
    ensures
        r == draw_decision(score as int, contempt as int, phase as int, opponent_offered),
{
    if opponent_offered && score <= -contempt {
        return DrawDecision::Accept;
    }
    if !opponent_offered && contempt <= 0 && phase <= 6 && -10 <= score && score <= 10 {
        return DrawDecision::Offer;
    }
    DrawDecision::PlayOn
}

} // verus!
