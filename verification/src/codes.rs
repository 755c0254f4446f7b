//! The numbers that name things on the wire: commands, statistics and
//! effects.

use vstd::prelude::*;

verus! {

/// One of the numbers that describe the client's player.
#[derive(Clone, Copy, Debug, PartialEq, Eq, Structural)]
pub enum ClientStat {
    /// Health points.
    Health,
    /// Kills scored.
    Frags,
    /// The weapon shown.
    Weapon,
    /// Rounds for the weapon in hand.
    Ammo,
    /// Armor points.
    Armor,
    /// The frame of the weapon's animation.
    WeaponFrame,
    /// Shells held.
    Shells,
    /// Nails held.
    Nails,
    /// Rockets held.
    Rockets,
    /// Cells held.
    Cells,
    /// The weapon in hand.
    ActiveWeapon,
    /// Secrets in the level.
    TotalSecrets,
    /// Monsters in the level.
    TotalMonsters,
    /// Secrets found.
    FoundSecrets,
    /// Monsters killed.
    KilledMonsters,
}

impl ClientStat {
    /// The number that stands for the statistic on the wire.
    pub open spec fn spec_code(self) -> u8 {
        match self {
            ClientStat::Health => 0,
            ClientStat::Frags => 1,
            ClientStat::Weapon => 2,
            ClientStat::Ammo => 3,
            ClientStat::Armor => 4,
            ClientStat::WeaponFrame => 5,
            ClientStat::Shells => 6,
            ClientStat::Nails => 7,
            ClientStat::Rockets => 8,
            ClientStat::Cells => 9,
            ClientStat::ActiveWeapon => 10,
            ClientStat::TotalSecrets => 11,
            ClientStat::TotalMonsters => 12,
            ClientStat::FoundSecrets => 13,
            ClientStat::KilledMonsters => 14,
        }
    }

    /// The statistic that a number stands for, if any.
    pub open spec fn spec_from_u8(code: u8) -> Option<ClientStat> {
        if code == 0 {
            Some(ClientStat::Health)
        } else if code == 1 {
            Some(ClientStat::Frags)
        } else if code == 2 {
            Some(ClientStat::Weapon)
        } else if code == 3 {
            Some(ClientStat::Ammo)
        } else if code == 4 {
            Some(ClientStat::Armor)
        } else if code == 5 {
            Some(ClientStat::WeaponFrame)
        } else if code == 6 {
            Some(ClientStat::Shells)
        } else if code == 7 {
            Some(ClientStat::Nails)
        } else if code == 8 {
            Some(ClientStat::Rockets)
        } else if code == 9 {
            Some(ClientStat::Cells)
        } else if code == 10 {
            Some(ClientStat::ActiveWeapon)
        } else if code == 11 {
            Some(ClientStat::TotalSecrets)
        } else if code == 12 {
            Some(ClientStat::TotalMonsters)
        } else if code == 13 {
            Some(ClientStat::FoundSecrets)
        } else if code == 14 {
            Some(ClientStat::KilledMonsters)
        } else {
            None
        }
    }

    /// The number that stands for the statistic on the wire.
    #[verifier::when_used_as_spec(spec_code)]
    pub fn code(self) -> (r: u8)
        ensures
            r == self.spec_code(),
    {
        match self {
            ClientStat::Health => 0,
            ClientStat::Frags => 1,
            ClientStat::Weapon => 2,
            ClientStat::Ammo => 3,
            ClientStat::Armor => 4,
            ClientStat::WeaponFrame => 5,
            ClientStat::Shells => 6,
            ClientStat::Nails => 7,
            ClientStat::Rockets => 8,
            ClientStat::Cells => 9,
            ClientStat::ActiveWeapon => 10,
            ClientStat::TotalSecrets => 11,
            ClientStat::TotalMonsters => 12,
            ClientStat::FoundSecrets => 13,
            ClientStat::KilledMonsters => 14,
        }
    }

    /// The statistic that a number stands for, if any.
    pub fn from_u8(code: u8) -> (r: Option<ClientStat>)
        ensures
            r == ClientStat::spec_from_u8(code),
    {
        match code {
            0 => Some(ClientStat::Health),
            1 => Some(ClientStat::Frags),
            2 => Some(ClientStat::Weapon),
            3 => Some(ClientStat::Ammo),
            4 => Some(ClientStat::Armor),
            5 => Some(ClientStat::WeaponFrame),
            6 => Some(ClientStat::Shells),
            7 => Some(ClientStat::Nails),
            8 => Some(ClientStat::Rockets),
            9 => Some(ClientStat::Cells),
            10 => Some(ClientStat::ActiveWeapon),
            11 => Some(ClientStat::TotalSecrets),
            12 => Some(ClientStat::TotalMonsters),
            13 => Some(ClientStat::FoundSecrets),
            14 => Some(ClientStat::KilledMonsters),
            _ => None,
        }
    }

    /// A statistic is found again by its number, and by no other.
    pub proof fn lemma_code_round_trip(self, code: u8)
        ensures
            ClientStat::spec_from_u8(self.spec_code()) == Some(self),
            ClientStat::spec_from_u8(code) == Some(self) ==> code == self.spec_code(),
    {
    }
}

/// The code that starts a command of the server.
#[derive(Clone, Copy, Debug, PartialEq, Eq, Structural)]
pub enum ServerCmdCode {
    /// No command: the code that marks bad data.
    Bad,
    /// Nothing to do.
    NoOp,
    /// The server ends the session.
    Disconnect,
    /// One of the client's numbers changes.
    UpdateStat,
    /// The protocol version of the server.
    Version,
    /// The entity that the view follows.
    SetView,
    /// A sound starts.
    Sound,
    /// The server's clock.
    Time,
    /// A line for the console.
    Print,
    /// Console input given by the server.
    StuffText,
    /// The view turns to the given angles.
    SetAngle,
    /// The start of a session: version, limits and the names to load.
    ServerInfo,
    /// A pattern for animated light.
    LightStyle,
    /// A player's name changes.
    UpdateName,
    /// A player's score changes.
    UpdateFrags,
    /// The state of the client's own player.
    ClientData,
    /// A sound ends.
    StopSound,
    /// A player's colors change.
    UpdateColors,
    /// A burst of particles.
    Particle,
    /// The player is hurt.
    Damage,
    /// An entity that never changes appears.
    SpawnStatic,
    /// The resting state of an entity.
    SpawnBaseline,
    /// A short-lived effect.
    TempEntity,
    /// The game pauses or goes on.
    SetPause,
    /// A step of signing on.
    SignOnNum,
    /// A line for the middle of the screen.
    CenterPrint,
    /// A monster died.
    KilledMonster,
    /// A secret was found.
    FoundSecret,
    /// A sound that stays in place.
    SpawnStaticSound,
    /// The level has ended.
    Intermission,
    /// The closing text of an episode.
    Finale,
    /// The music track to play.
    CdTrack,
    /// The screen that advertises the full game.
    SellScreen,
    /// A scene without the player.
    Cutscene,
}

impl ServerCmdCode {
    /// The number that stands for the command on the wire.
    pub open spec fn spec_code(self) -> u8 {
        match self {
            ServerCmdCode::Bad => 0,
            ServerCmdCode::NoOp => 1,
            ServerCmdCode::Disconnect => 2,
            ServerCmdCode::UpdateStat => 3,
            ServerCmdCode::Version => 4,
            ServerCmdCode::SetView => 5,
            ServerCmdCode::Sound => 6,
            ServerCmdCode::Time => 7,
            ServerCmdCode::Print => 8,
            ServerCmdCode::StuffText => 9,
            ServerCmdCode::SetAngle => 10,
            ServerCmdCode::ServerInfo => 11,
            ServerCmdCode::LightStyle => 12,
            ServerCmdCode::UpdateName => 13,
            ServerCmdCode::UpdateFrags => 14,
            ServerCmdCode::ClientData => 15,
            ServerCmdCode::StopSound => 16,
            ServerCmdCode::UpdateColors => 17,
            ServerCmdCode::Particle => 18,
            ServerCmdCode::Damage => 19,
            ServerCmdCode::SpawnStatic => 20,
            ServerCmdCode::SpawnBaseline => 22,
            ServerCmdCode::TempEntity => 23,
            ServerCmdCode::SetPause => 24,
            ServerCmdCode::SignOnNum => 25,
            ServerCmdCode::CenterPrint => 26,
            ServerCmdCode::KilledMonster => 27,
            ServerCmdCode::FoundSecret => 28,
            ServerCmdCode::SpawnStaticSound => 29,
            ServerCmdCode::Intermission => 30,
            ServerCmdCode::Finale => 31,
            ServerCmdCode::CdTrack => 32,
            ServerCmdCode::SellScreen => 33,
            ServerCmdCode::Cutscene => 34,
        }
    }

    /// The command that a number stands for, if any.
    pub open spec fn spec_from_u8(code: u8) -> Option<ServerCmdCode> {
        if code == 0 {
            Some(ServerCmdCode::Bad)
        } else if code == 1 {
            Some(ServerCmdCode::NoOp)
        } else if code == 2 {
            Some(ServerCmdCode::Disconnect)
        } else if code == 3 {
            Some(ServerCmdCode::UpdateStat)
        } else if code == 4 {
            Some(ServerCmdCode::Version)
        } else if code == 5 {
            Some(ServerCmdCode::SetView)
        } else if code == 6 {
            Some(ServerCmdCode::Sound)
        } else if code == 7 {
            Some(ServerCmdCode::Time)
        } else if code == 8 {
            Some(ServerCmdCode::Print)
        } else if code == 9 {
            Some(ServerCmdCode::StuffText)
        } else if code == 10 {
            Some(ServerCmdCode::SetAngle)
        } else if code == 11 {
            Some(ServerCmdCode::ServerInfo)
        } else if code == 12 {
            Some(ServerCmdCode::LightStyle)
        } else if code == 13 {
            Some(ServerCmdCode::UpdateName)
        } else if code == 14 {
            Some(ServerCmdCode::UpdateFrags)
        } else if code == 15 {
            Some(ServerCmdCode::ClientData)
        } else if code == 16 {
            Some(ServerCmdCode::StopSound)
        } else if code == 17 {
            Some(ServerCmdCode::UpdateColors)
        } else if code == 18 {
            Some(ServerCmdCode::Particle)
        } else if code == 19 {
            Some(ServerCmdCode::Damage)
        } else if code == 20 {
            Some(ServerCmdCode::SpawnStatic)
        } else if code == 22 {
            Some(ServerCmdCode::SpawnBaseline)
        } else if code == 23 {
            Some(ServerCmdCode::TempEntity)
        } else if code == 24 {
            Some(ServerCmdCode::SetPause)
        } else if code == 25 {
            Some(ServerCmdCode::SignOnNum)
        } else if code == 26 {
            Some(ServerCmdCode::CenterPrint)
        } else if code == 27 {
            Some(ServerCmdCode::KilledMonster)
        } else if code == 28 {
            Some(ServerCmdCode::FoundSecret)
        } else if code == 29 {
            Some(ServerCmdCode::SpawnStaticSound)
        } else if code == 30 {
            Some(ServerCmdCode::Intermission)
        } else if code == 31 {
            Some(ServerCmdCode::Finale)
        } else if code == 32 {
            Some(ServerCmdCode::CdTrack)
        } else if code == 33 {
            Some(ServerCmdCode::SellScreen)
        } else if code == 34 {
            Some(ServerCmdCode::Cutscene)
        } else {
            None
        }
    }

    /// The number that stands for the command on the wire.
    #[verifier::when_used_as_spec(spec_code)]
    pub fn code(self) -> (r: u8)
        ensures
            r == self.spec_code(),
    {
        match self {
            ServerCmdCode::Bad => 0,
            ServerCmdCode::NoOp => 1,
            ServerCmdCode::Disconnect => 2,
            ServerCmdCode::UpdateStat => 3,
            ServerCmdCode::Version => 4,
            ServerCmdCode::SetView => 5,
            ServerCmdCode::Sound => 6,
            ServerCmdCode::Time => 7,
            ServerCmdCode::Print => 8,
            ServerCmdCode::StuffText => 9,
            ServerCmdCode::SetAngle => 10,
            ServerCmdCode::ServerInfo => 11,
            ServerCmdCode::LightStyle => 12,
            ServerCmdCode::UpdateName => 13,
            ServerCmdCode::UpdateFrags => 14,
            ServerCmdCode::ClientData => 15,
            ServerCmdCode::StopSound => 16,
            ServerCmdCode::UpdateColors => 17,
            ServerCmdCode::Particle => 18,
            ServerCmdCode::Damage => 19,
            ServerCmdCode::SpawnStatic => 20,
            ServerCmdCode::SpawnBaseline => 22,
            ServerCmdCode::TempEntity => 23,
            ServerCmdCode::SetPause => 24,
            ServerCmdCode::SignOnNum => 25,
            ServerCmdCode::CenterPrint => 26,
            ServerCmdCode::KilledMonster => 27,
            ServerCmdCode::FoundSecret => 28,
            ServerCmdCode::SpawnStaticSound => 29,
            ServerCmdCode::Intermission => 30,
            ServerCmdCode::Finale => 31,
            ServerCmdCode::CdTrack => 32,
            ServerCmdCode::SellScreen => 33,
            ServerCmdCode::Cutscene => 34,
        }
    }

    /// The command that a number stands for, if any.
    pub fn from_u8(code: u8) -> (r: Option<ServerCmdCode>)
        ensures
            r == ServerCmdCode::spec_from_u8(code),
    {
        match code {
            0 => Some(ServerCmdCode::Bad),
            1 => Some(ServerCmdCode::NoOp),
            2 => Some(ServerCmdCode::Disconnect),
            3 => Some(ServerCmdCode::UpdateStat),
            4 => Some(ServerCmdCode::Version),
            5 => Some(ServerCmdCode::SetView),
            6 => Some(ServerCmdCode::Sound),
            7 => Some(ServerCmdCode::Time),
            8 => Some(ServerCmdCode::Print),
            9 => Some(ServerCmdCode::StuffText),
            10 => Some(ServerCmdCode::SetAngle),
            11 => Some(ServerCmdCode::ServerInfo),
            12 => Some(ServerCmdCode::LightStyle),
            13 => Some(ServerCmdCode::UpdateName),
            14 => Some(ServerCmdCode::UpdateFrags),
            15 => Some(ServerCmdCode::ClientData),
            16 => Some(ServerCmdCode::StopSound),
            17 => Some(ServerCmdCode::UpdateColors),
            18 => Some(ServerCmdCode::Particle),
            19 => Some(ServerCmdCode::Damage),
            20 => Some(ServerCmdCode::SpawnStatic),
            22 => Some(ServerCmdCode::SpawnBaseline),
            23 => Some(ServerCmdCode::TempEntity),
            24 => Some(ServerCmdCode::SetPause),
            25 => Some(ServerCmdCode::SignOnNum),
            26 => Some(ServerCmdCode::CenterPrint),
            27 => Some(ServerCmdCode::KilledMonster),
            28 => Some(ServerCmdCode::FoundSecret),
            29 => Some(ServerCmdCode::SpawnStaticSound),
            30 => Some(ServerCmdCode::Intermission),
            31 => Some(ServerCmdCode::Finale),
            32 => Some(ServerCmdCode::CdTrack),
            33 => Some(ServerCmdCode::SellScreen),
            34 => Some(ServerCmdCode::Cutscene),
            _ => None,
        }
    }

    /// A command is found again by its number, and by no other.
    pub proof fn lemma_code_round_trip(self, code: u8)
        ensures
            ServerCmdCode::spec_from_u8(self.spec_code()) == Some(self),
            ServerCmdCode::spec_from_u8(code) == Some(self) ==> code == self.spec_code(),
    {
    }
}

/// The code that starts a command of the client.
#[derive(Clone, Copy, Debug, PartialEq, Eq, Structural)]
pub enum ClientCmd {
    /// No command: the code that marks bad data.
    Bad,
    /// Nothing to do.
    NoOp,
    /// The client ends the session.
    Disconnect,
    /// The player's movement for one frame.
    Move,
    /// A console command for the server.
    StringCmd,
}

impl ClientCmd {
    /// The number that stands for the command on the wire.
    pub open spec fn spec_code(self) -> u8 {
        match self {
            ClientCmd::Bad => 0,
            ClientCmd::NoOp => 1,
            ClientCmd::Disconnect => 2,
            ClientCmd::Move => 3,
            ClientCmd::StringCmd => 4,
        }
    }

    /// The command that a number stands for, if any.
    pub open spec fn spec_from_u8(code: u8) -> Option<ClientCmd> {
        if code == 0 {
            Some(ClientCmd::Bad)
        } else if code == 1 {
            Some(ClientCmd::NoOp)
        } else if code == 2 {
            Some(ClientCmd::Disconnect)
        } else if code == 3 {
            Some(ClientCmd::Move)
        } else if code == 4 {
            Some(ClientCmd::StringCmd)
        } else {
            None
        }
    }

    /// The number that stands for the command on the wire.
    #[verifier::when_used_as_spec(spec_code)]
    pub fn code(self) -> (r: u8)
        ensures
            r == self.spec_code(),
    {
        match self {
            ClientCmd::Bad => 0,
            ClientCmd::NoOp => 1,
            ClientCmd::Disconnect => 2,
            ClientCmd::Move => 3,
            ClientCmd::StringCmd => 4,
        }
    }

    /// The command that a number stands for, if any.
    pub fn from_u8(code: u8) -> (r: Option<ClientCmd>)
        ensures
            r == ClientCmd::spec_from_u8(code),
    {
        match code {
            0 => Some(ClientCmd::Bad),
            1 => Some(ClientCmd::NoOp),
            2 => Some(ClientCmd::Disconnect),
            3 => Some(ClientCmd::Move),
            4 => Some(ClientCmd::StringCmd),
            _ => None,
        }
    }

    /// A command is found again by its number, and by no other.
    pub proof fn lemma_code_round_trip(self, code: u8)
        ensures
            ClientCmd::spec_from_u8(self.spec_code()) == Some(self),
            ClientCmd::spec_from_u8(code) == Some(self) ==> code == self.spec_code(),
    {
    }
}

/// The kind of a short-lived effect.
#[derive(Clone, Copy, Debug, PartialEq, Eq, Structural)]
pub enum TempEntity {
    /// A nail hits a wall.
    Spike,
    /// A heavy nail hits a wall.
    SuperSpike,
    /// Shot hits a wall.
    Gunshot,
    /// A rocket explodes.
    Explosion,
    /// A spawn explodes.
    TarExplosion,
    /// A bolt of lightning, first kind.
    Lightning1,
    /// A bolt of lightning, second kind.
    Lightning2,
    /// A wizard's spit hits a wall.
    WizSpike,
    /// A knight's bolt hits a wall.
    KnightSpike,
    /// A bolt of lightning, third kind.
    Lightning3,
    /// Lava splashes.
    LavaSplash,
    /// Something arrives by teleporter.
    Teleport,
    /// An explosion in given colors.
    Explosion2,
    /// A beam between two points.
    Beam,
}

impl TempEntity {
    /// The number that stands for the effect on the wire.
    pub open spec fn spec_code(self) -> u8 {
        match self {
            TempEntity::Spike => 0,
            TempEntity::SuperSpike => 1,
            TempEntity::Gunshot => 2,
            TempEntity::Explosion => 3,
            TempEntity::TarExplosion => 4,
            TempEntity::Lightning1 => 5,
            TempEntity::Lightning2 => 6,
            TempEntity::WizSpike => 7,
            TempEntity::KnightSpike => 8,
            TempEntity::Lightning3 => 9,
            TempEntity::LavaSplash => 10,
            TempEntity::Teleport => 11,
            TempEntity::Explosion2 => 12,
            TempEntity::Beam => 13,
        }
    }

    /// The effect that a number stands for, if any.
    pub open spec fn spec_from_u8(code: u8) -> Option<TempEntity> {
        if code == 0 {
            Some(TempEntity::Spike)
        } else if code == 1 {
            Some(TempEntity::SuperSpike)
        } else if code == 2 {
            Some(TempEntity::Gunshot)
        } else if code == 3 {
            Some(TempEntity::Explosion)
        } else if code == 4 {
            Some(TempEntity::TarExplosion)
        } else if code == 5 {
            Some(TempEntity::Lightning1)
        } else if code == 6 {
            Some(TempEntity::Lightning2)
        } else if code == 7 {
            Some(TempEntity::WizSpike)
        } else if code == 8 {
            Some(TempEntity::KnightSpike)
        } else if code == 9 {
            Some(TempEntity::Lightning3)
        } else if code == 10 {
            Some(TempEntity::LavaSplash)
        } else if code == 11 {
            Some(TempEntity::Teleport)
        } else if code == 12 {
            Some(TempEntity::Explosion2)
        } else if code == 13 {
            Some(TempEntity::Beam)
        } else {
            None
        }
    }

    /// The number that stands for the effect on the wire.
    #[verifier::when_used_as_spec(spec_code)]
    pub fn code(self) -> (r: u8)
        ensures
            r == self.spec_code(),
    {
        match self {
            TempEntity::Spike => 0,
            TempEntity::SuperSpike => 1,
            TempEntity::Gunshot => 2,
            TempEntity::Explosion => 3,
            TempEntity::TarExplosion => 4,
            TempEntity::Lightning1 => 5,
            TempEntity::Lightning2 => 6,
            TempEntity::WizSpike => 7,
            TempEntity::KnightSpike => 8,
            TempEntity::Lightning3 => 9,
            TempEntity::LavaSplash => 10,
            TempEntity::Teleport => 11,
            TempEntity::Explosion2 => 12,
            TempEntity::Beam => 13,
        }
    }

    /// The effect that a number stands for, if any.
    pub fn from_u8(code: u8) -> (r: Option<TempEntity>)
        ensures
            r == TempEntity::spec_from_u8(code),
    {
        match code {
            0 => Some(TempEntity::Spike),
            1 => Some(TempEntity::SuperSpike),
            2 => Some(TempEntity::Gunshot),
            3 => Some(TempEntity::Explosion),
            4 => Some(TempEntity::TarExplosion),
            5 => Some(TempEntity::Lightning1),
            6 => Some(TempEntity::Lightning2),
            7 => Some(TempEntity::WizSpike),
            8 => Some(TempEntity::KnightSpike),
            9 => Some(TempEntity::Lightning3),
            10 => Some(TempEntity::LavaSplash),
            11 => Some(TempEntity::Teleport),
            12 => Some(TempEntity::Explosion2),
            13 => Some(TempEntity::Beam),
            _ => None,
        }
    }

    /// A effect is found again by its number, and by no other.
    pub proof fn lemma_code_round_trip(self, code: u8)
        ensures
            TempEntity::spec_from_u8(self.spec_code()) == Some(self),
            TempEntity::spec_from_u8(code) == Some(self) ==> code == self.spec_code(),
    {
    }
}

} // verus!
