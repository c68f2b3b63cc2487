use vstd::prelude::*;

use crate::error::DemoParserError;

verus! {

/// The command that opens each frame of a demo file.
#[derive(Debug, Clone, Copy, PartialEq, Eq, Structural)]
pub enum EDemoCommands {
    DemError,
    DemStop,
    DemFileHeader,
    DemFileInfo,
    DemSyncTick,
    DemSendTables,
    DemClassInfo,
    DemStringTables,
    DemPacket,
    DemSignonPacket,
    DemConsoleCmd,
    DemCustomData,
    DemCustomDataCallbacks,
    DemUserCmd,
    DemFullPacket,
    DemSaveGame,
    DemSpawnGroups,
    DemAnimationData,
    DemMax,
    DemIsCompressed,
}

/// The command with wire number `value`, if there is one.
pub open spec fn demo_cmd_of(value: i32) -> Option<EDemoCommands> {
    if value == -1 {
        Some(EDemoCommands::DemError)
    } else if value == 0 {
        Some(EDemoCommands::DemStop)
    } else if value == 1 {
        Some(EDemoCommands::DemFileHeader)
    } else if value == 2 {
        Some(EDemoCommands::DemFileInfo)
    } else if value == 3 {
        Some(EDemoCommands::DemSyncTick)
    } else if value == 4 {
        Some(EDemoCommands::DemSendTables)
    } else if value == 5 {
        Some(EDemoCommands::DemClassInfo)
    } else if value == 6 {
        Some(EDemoCommands::DemStringTables)
    } else if value == 7 {
        Some(EDemoCommands::DemPacket)
    } else if value == 8 {
        Some(EDemoCommands::DemSignonPacket)
    } else if value == 9 {
        Some(EDemoCommands::DemConsoleCmd)
    } else if value == 10 {
        Some(EDemoCommands::DemCustomData)
    } else if value == 11 {
        Some(EDemoCommands::DemCustomDataCallbacks)
    } else if value == 12 {
        Some(EDemoCommands::DemUserCmd)
    } else if value == 13 {
        Some(EDemoCommands::DemFullPacket)
    } else if value == 14 {
        Some(EDemoCommands::DemSaveGame)
    } else if value == 15 {
        Some(EDemoCommands::DemSpawnGroups)
    } else if value == 16 {
        Some(EDemoCommands::DemAnimationData)
    } else if value == 17 {
        Some(EDemoCommands::DemMax)
    } else if value == 64 {
        Some(EDemoCommands::DemIsCompressed)
    } else {
        None
    }
}

/// Maps a wire number to its command; unknown numbers are an error.
pub fn demo_cmd_type_from_int(value: i32) -> (res: Result<EDemoCommands, DemoParserError>)
    ensures
        match demo_cmd_of(value) {
            Some(c) => res == Ok::<EDemoCommands, DemoParserError>(c),
            None => res == Err::<EDemoCommands, DemoParserError>(DemoParserError::UnknownDemoCmd(value)),
        },
{
    match value {
        -1 => Ok(EDemoCommands::DemError),
        0 => Ok(EDemoCommands::DemStop),
        1 => Ok(EDemoCommands::DemFileHeader),
        2 => Ok(EDemoCommands::DemFileInfo),
        3 => Ok(EDemoCommands::DemSyncTick),
        4 => Ok(EDemoCommands::DemSendTables),
        5 => Ok(EDemoCommands::DemClassInfo),
        6 => Ok(EDemoCommands::DemStringTables),
        7 => Ok(EDemoCommands::DemPacket),
        8 => Ok(EDemoCommands::DemSignonPacket),
        9 => Ok(EDemoCommands::DemConsoleCmd),
        10 => Ok(EDemoCommands::DemCustomData),
        11 => Ok(EDemoCommands::DemCustomDataCallbacks),
        12 => Ok(EDemoCommands::DemUserCmd),
        13 => Ok(EDemoCommands::DemFullPacket),
        14 => Ok(EDemoCommands::DemSaveGame),
        15 => Ok(EDemoCommands::DemSpawnGroups),
        16 => Ok(EDemoCommands::DemAnimationData),
        17 => Ok(EDemoCommands::DemMax),
        64 => Ok(EDemoCommands::DemIsCompressed),
        _ => Err(DemoParserError::UnknownDemoCmd(value)),
    }
}

} // verus!
