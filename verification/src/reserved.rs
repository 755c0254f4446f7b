//! Commands that have a code but no content laid down yet. A message that
//! holds one of them cannot be read past it.

use vstd::prelude::*;

verus! {

/// An entity that never changes appears.
#[derive(Clone, Copy, Debug, PartialEq, Eq, Structural)]
pub struct ServerCmdSpawnStatic {}

/// The resting state of an entity.
#[derive(Clone, Copy, Debug, PartialEq, Eq, Structural)]
pub struct ServerCmdSpawnBaseline {}

/// A short-lived effect.
#[derive(Clone, Copy, Debug, PartialEq, Eq, Structural)]
pub struct ServerCmdTempEntity {}

/// The game pauses or goes on.
#[derive(Clone, Copy, Debug, PartialEq, Eq, Structural)]
pub struct ServerCmdSetPause {}

/// A step of signing on.
#[derive(Clone, Copy, Debug, PartialEq, Eq, Structural)]
pub struct ServerCmdSignOnNum {}

/// A line for the middle of the screen.
#[derive(Clone, Copy, Debug, PartialEq, Eq, Structural)]
pub struct ServerCmdCenterPrint {}

/// A sound that stays in place.
#[derive(Clone, Copy, Debug, PartialEq, Eq, Structural)]
pub struct ServerCmdSpawnStaticSound {}

/// The level has ended.
#[derive(Clone, Copy, Debug, PartialEq, Eq, Structural)]
pub struct ServerCmdIntermission {}

/// The closing text of an episode.
#[derive(Clone, Copy, Debug, PartialEq, Eq, Structural)]
pub struct ServerCmdFinale {}

/// The music track to play.
#[derive(Clone, Copy, Debug, PartialEq, Eq, Structural)]
pub struct ServerCmdCdTrack {}

/// The screen that advertises the full game.
#[derive(Clone, Copy, Debug, PartialEq, Eq, Structural)]
pub struct ServerCmdSellScreen {}

/// A scene without the player.
#[derive(Clone, Copy, Debug, PartialEq, Eq, Structural)]
pub struct ServerCmdCutscene {}

} // verus!
