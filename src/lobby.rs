//! Session start-up decisions: whether to play alone or wait in a lobby, how
//! many peers are still missing, and which session events end a game.
use vstd::prelude::*;

verus! {

/// The application's top-level state.
#[derive(Clone, Copy, Debug, PartialEq, Eq, Structural, Hash)]
pub enum AppState {
    Startup,
    Lobby,
    InGame,
    Paused,
}

/// The state to enter at start-up: a single player starts a local
/// self-checking session at once; more players first meet in the lobby.
pub fn setup(players: usize) -> (r: AppState)
    ensures
        r == (if players == 1 {
            AppState::InGame
        } else {
            AppState::Lobby
        }),
{
    if players == 1 {
        AppState::InGame
    } else {
        AppState::Lobby
    }
}

/// What the lobby does on one update.
#[derive(Clone, Copy, Debug, PartialEq, Eq, Structural, Hash)]
pub enum LobbyAction {
    /// Keep waiting for this many more players.
    Wait { remaining: usize },
    /// Everyone is here: start the peer-to-peer session and go in game.
    StartSession,
}

/// The lobby's decision when `connected_peers` other peers are connected to
/// a room for `players` players (this peer included).
pub fn lobby_system(players: usize, connected_peers: usize) -> (r: LobbyAction)
    requires
        connected_peers < players,
    ensures
        players - (connected_peers + 1) > 0 ==> r == (LobbyAction::Wait {
            remaining: (players - (connected_peers + 1)) as usize,
        }),
        players - (connected_peers + 1) == 0 ==> r == LobbyAction::StartSession,
{
    let remaining = players - (connected_peers + 1);
    if remaining > 0 {
        LobbyAction::Wait { remaining }
    } else {
        LobbyAction::StartSession
    }
}

/// An event reported by a running session.
#[derive(Clone, Copy, Debug, PartialEq, Eq, Structural, Hash)]
pub enum SessionEvent {
    /// The peers' checksums of `frame` differ.
    DesyncDetected { frame: usize, local_checksum: u64, remote_checksum: u64 },
    /// A peer is synchronizing, connected, disconnected or interrupted.
    PeerStatus { peer: usize },
}

/// Whether an event ends the session.
pub open spec fn is_fatal(e: SessionEvent) -> bool {
    e is DesyncDetected
}

/// Goes through a tick's session events: the index of the first desync,
/// which ends the session, or `None` when the session may go on.
pub fn log_ggrs_events(events: &Vec<SessionEvent>) -> (r: Option<usize>)
    ensures
        r matches Some(i) ==> i < events.len() && is_fatal(events@[i as int]) && forall|j: int|
            0 <= j < i ==> !is_fatal(#[trigger] events@[j]),
        r is None ==> forall|j: int| 0 <= j < events.len() ==> !is_fatal(#[trigger] events@[j]),
{
    let mut i: usize = 0;
    while i < events.len()
        invariant
            0 <= i <= events.len(),
            forall|j: int| 0 <= j < i ==> !is_fatal(#[trigger] events@[j]),
        decreases events.len() - i,
    {
        if let SessionEvent::DesyncDetected { .. } = events[i] {
            return Some(i);
        }
        i = i + 1;
    }
    None
}

} // verus!
