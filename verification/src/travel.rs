use vstd::prelude::*;

verus! {

/// What a pilot whose boarding timed out is told.
pub const TIMEOUT_MESSAGE: &'static str =
    "Chargement trop long : tu observes cette manche en vol. /join pour la suivante.";

/// Where a teleported player is headed.
#[derive(Clone, Copy, Debug, PartialEq, Eq, Structural)]
pub enum Transfer {
    /// Back to the lobby, in flight.
    Lobby,
    /// Into the seat of their kart on the grid.
    Boarding,
}

/// How a teleport ended.
#[derive(Clone, Copy, Debug, PartialEq, Eq, Structural)]
pub enum TeleportOutcome {
    /// The client confirmed it.
    Confirmed,
    /// The client did not confirm it in time.
    TimedOut,
    /// Another teleport replaced it.
    Cancelled,
}

/// What follows the end of a transfer.
#[derive(Clone, Copy, Debug, PartialEq, Eq, Structural)]
pub enum Arrival {
    /// The pilot takes the seat of their kart and stops flying.
    Seat,
    /// The kart leaves the race; the pilot is told why and flies back to the
    /// lobby.
    Abandon,
    /// The server gives the player's position back to the client.
    Release,
}

/// What follows a transfer that ended with `outcome`: a confirmed boarding
/// seats the pilot, a boarding that timed out abandons the round, and
/// anything else only releases the player.
pub fn arrival(transfer: Transfer, outcome: TeleportOutcome) -> (a: Arrival)
    ensures
        a == match (transfer, outcome) {
            (Transfer::Boarding, TeleportOutcome::Confirmed) => Arrival::Seat,
            (Transfer::Boarding, TeleportOutcome::TimedOut) => Arrival::Abandon,
            _ => Arrival::Release,
        },
{
    match (transfer, outcome) {
        (Transfer::Boarding, TeleportOutcome::Confirmed) => Arrival::Seat,
        (Transfer::Boarding, TeleportOutcome::TimedOut) => Arrival::Abandon,
        (Transfer::Lobby, _) | (Transfer::Boarding, TeleportOutcome::Cancelled) => Arrival::Release,
    }
}

} // verus!
