//! The recruit record: one player's call for others to join a session.

use crate::time::{calendar_seconds, Timestamp};
use crate::wire::{
    be_u32_at, le_i32_at, le_u32_at, text_field, Decoded, Ipv4Address, ParseError, Reader,
};
use vstd::prelude::*;
use vstd::std_specs::convert::FromSpecImpl;

verus! {

/// The group a recruiting player belongs to. Values that are not known are
/// kept as they came.
#[derive(Clone, Copy, Debug, PartialEq, Eq, Structural)]
pub enum Group {
    A,
    B,
    C,
    D,
    Unknown(u32),
}

impl Group {
    /// The group that the wire value `v` names.
    pub open spec fn of(v: u32) -> Group {
        if v == 1 {
            Group::A
        } else if v == 2 {
            Group::B
        } else if v == 3 {
            Group::C
        } else if v == 4 {
            Group::D
        } else {
            Group::Unknown(v)
        }
    }

    /// The wire value of `self`.
    pub open spec fn wire_code(self) -> u32 {
        match self {
            Group::A => 1,
            Group::B => 2,
            Group::C => 3,
            Group::D => 4,
            Group::Unknown(v) => v,
        }
    }

    /// The wire value of `self`.
    #[verifier::when_used_as_spec(wire_code)]
    pub fn code(self) -> (r: u32)
        ensures
            r == self.wire_code(),
    {
        match self {
            Group::A => 1,
            Group::B => 2,
            Group::C => 3,
            Group::D => 4,
            Group::Unknown(v) => v,
        }
    }
}

impl From<u32> for Group {
    fn from(v: u32) -> (r: Group) {
        if v == 1 {
            Group::A
        } else if v == 2 {
            Group::B
        } else if v == 3 {
            Group::C
        } else if v == 4 {
            Group::D
        } else {
            Group::Unknown(v)
        }
    }
}

impl FromSpecImpl<u32> for Group {
    open spec fn obeys_from_spec() -> bool {
        true
    }

    open spec fn from_spec(v: u32) -> Group {
        Group::of(v)
    }
}

/// Struct padding in front of a recruit record, in bytes.
pub const RESERVED_LEAD: usize = 15;

/// A field after the card identifier that has only been seen to hold zero.
pub const CONSTANT_ZERO: usize = 4;

/// A field in front of the team name that has only been seen to hold one.
pub const CONSTANT_ONE: usize = 8;

/// A region of unknown meaning between the team name and the avatar.
pub const RESERVED_AFTER_TEAM: usize = 30;

/// A region after the avatar that has only been seen to hold zeros.
pub const RESERVED_AFTER_AVATAR: usize = 16;

/// A copy of the event-mode flag as a 32-bit word; the byte at the end of the
/// record is the one that is reported.
pub const EVENT_FLAG: usize = 4;

/// A word of unknown meaning after the event-mode word.
pub const UNKNOWN_WORD: usize = 4;

/// A field that has only been seen to hold minus one.
pub const CONSTANT_MINUS_ONE: usize = 4;

/// Struct padding in front of the time, in bytes.
pub const RESERVED_BEFORE_TIME: usize = 5;

/// The fixed run in front of the name.
struct Lead {
    flag: bool,
    unknown0: u32,
    host: Ipv4Address,
    aime_id: u32,
}

impl Lead {
    /// The run at the front of `s`.
    spec fn at(s: Seq<u8>) -> Lead {
        Lead {
            flag: s[15] != 0,
            unknown0: le_u32_at(s, 16),
            host: Ipv4Address { bits: be_u32_at(s, 20) },
            aime_id: le_u32_at(s, 24),
        }
    }

    /// Reads the run: 32 bytes.
    fn parse(reader: &mut Reader) -> (r: Result<Lead, ParseError>)
        ensures
            final(reader).input() == old(reader).input(),
            match r {
                Ok(v) => final(reader).follows(*old(reader), 32) && v == Lead::at(
                    old(reader).remaining(),
                ),
                Err(e) => e == ParseError::UnexpectedEof && old(reader).remaining().len() < 32,
            },
    {
        reader.skip(RESERVED_LEAD)?;
        let flag = reader.read_u8()? != 0;
        let unknown0 = reader.read_u32_le()?;
        let host = reader.read_ipv4()?;
        let aime_id = reader.read_u32_le()?;
        reader.skip(CONSTANT_ZERO)?;
        Ok(Lead { flag, unknown0, host, aime_id })
    }
}

/// The fixed run between the name and the team.
struct Play {
    chara: u32,
    chara_level: u32,
    skill: u32,
    skill_level: u32,
    trophy: u32,
    trophy2: u32,
    trophy3: u32,
    rating: u32,
    music_id: u32,
    difficulty: u32,
}

impl Play {
    /// The run at the front of `s`.
    spec fn at(s: Seq<u8>) -> Play {
        Play {
            chara: le_u32_at(s, 0),
            chara_level: le_u32_at(s, 4),
            skill: le_u32_at(s, 8),
            skill_level: le_u32_at(s, 12),
            trophy: le_u32_at(s, 16),
            trophy2: le_u32_at(s, 20),
            trophy3: le_u32_at(s, 24),
            rating: le_u32_at(s, 28),
            music_id: le_u32_at(s, 32),
            difficulty: le_u32_at(s, 36),
        }
    }

    /// Reads the run: 48 bytes.
    fn parse(reader: &mut Reader) -> (r: Result<Play, ParseError>)
        ensures
            final(reader).input() == old(reader).input(),
            match r {
                Ok(v) => final(reader).follows(*old(reader), 48) && v == Play::at(
                    old(reader).remaining(),
                ),
                Err(e) => e == ParseError::UnexpectedEof && old(reader).remaining().len() < 48,
            },
    {
        let chara = reader.read_u32_le()?;
        let chara_level = reader.read_u32_le()?;
        let skill = reader.read_u32_le()?;
        let skill_level = reader.read_u32_le()?;
        let trophy = reader.read_u32_le()?;
        let trophy2 = reader.read_u32_le()?;
        let trophy3 = reader.read_u32_le()?;
        let rating = reader.read_u32_le()?;
        let music_id = reader.read_u32_le()?;
        let difficulty = reader.read_u32_le()?;
        reader.skip(CONSTANT_ONE)?;
        Ok(
            Play {
                chara,
                chara_level,
                skill,
                skill_level,
                trophy,
                trophy2,
                trophy3,
                rating,
                music_id,
                difficulty,
            },
        )
    }
}

/// The fixed run behind the team.
struct Tail {
    avatar_wear: u32,
    avatar_head: u32,
    avatar_face: u32,
    avatar_skin: u32,
    avatar_item: u32,
    avatar_front: u32,
    avatar_back: u32,
    music_id2: u32,
    group: Group,
    time: Timestamp,
    players: u32,
    event_mode: bool,
    friend_only: bool,
}

impl Tail {
    /// The run at the front of `s`.
    spec fn at(s: Seq<u8>) -> Tail {
        Tail {
            avatar_wear: le_u32_at(s, 30),
            avatar_head: le_u32_at(s, 34),
            avatar_face: le_u32_at(s, 38),
            avatar_skin: le_u32_at(s, 42),
            avatar_item: le_u32_at(s, 46),
            avatar_front: le_u32_at(s, 50),
            avatar_back: le_u32_at(s, 54),
            music_id2: le_u32_at(s, 74),
            group: Group::of(le_u32_at(s, 78)),
            time: Timestamp::resolve(calendar_seconds(le_i32_at(s, 99) as i64)),
            players: le_u32_at(s, 103),
            event_mode: s[107] != 0,
            friend_only: s[108] != 0,
        }
    }

    /// Reads the run: 109 bytes.
    fn parse(reader: &mut Reader) -> (r: Result<Tail, ParseError>)
        ensures
            final(reader).input() == old(reader).input(),
            match r {
                Ok(v) => final(reader).follows(*old(reader), 109) && v == Tail::at(
                    old(reader).remaining(),
                ),
                Err(e) => e == ParseError::UnexpectedEof && old(reader).remaining().len() < 109,
            },
    {
        reader.skip(RESERVED_AFTER_TEAM)?;
        let avatar_wear = reader.read_u32_le()?;
        let avatar_head = reader.read_u32_le()?;
        let avatar_face = reader.read_u32_le()?;
        let avatar_skin = reader.read_u32_le()?;
        let avatar_item = reader.read_u32_le()?;
        let avatar_front = reader.read_u32_le()?;
        let avatar_back = reader.read_u32_le()?;
        reader.skip(RESERVED_AFTER_AVATAR)?;
        let music_id2 = reader.read_u32_le()?;
        let group = Group::from(reader.read_u32_le()?);
        reader.skip(EVENT_FLAG)?;
        reader.skip(UNKNOWN_WORD)?;
        reader.skip(CONSTANT_MINUS_ONE)?;
        reader.skip(RESERVED_BEFORE_TIME)?;
        let time = Timestamp::from_epoch_seconds(reader.read_i32_le()? as i64);
        let players = reader.read_u32_le()?;
        let event_mode = reader.read_u8()? != 0;
        let friend_only = reader.read_u8()? != 0;
        Ok(
            Tail {
                avatar_wear,
                avatar_head,
                avatar_face,
                avatar_skin,
                avatar_item,
                avatar_front,
                avatar_back,
                music_id2,
                group,
                time,
                players,
                event_mode,
                friend_only,
            },
        )
    }
}

/// A recruit record: one player's call for others to join a session.
///
/// The layout was worked out from captured traffic. Fields whose meaning is a
/// guess say so; regions whose meaning is unknown are passed over by their
/// exact width and not interpreted.
#[derive(Clone, Debug, PartialEq, Eq)]
pub struct Recruit {
    /// A flag of unconfirmed meaning; any non-zero byte sets it.
    pub flag: bool,
    /// A value of unknown meaning, kept as it came.
    pub unknown0: u32,
    /// The address of the recruiting cabinet.
    pub host: Ipv4Address,
    /// The card identifier of the recruiting player.
    pub aime_id: u32,
    /// The player's name.
    pub name: String,
    pub chara: u32,
    pub chara_level: u32,
    pub skill: u32,
    pub skill_level: u32,
    pub trophy: u32,
    pub trophy2: u32,
    pub trophy3: u32,
    pub rating: u32,
    pub music_id: u32,
    pub difficulty: u32,
    /// The name of the player's team.
    pub team: String,
    pub avatar_wear: u32,
    pub avatar_head: u32,
    pub avatar_face: u32,
    pub avatar_skin: u32,
    pub avatar_item: u32,
    pub avatar_front: u32,
    pub avatar_back: u32,
    /// The tune again, as the record repeats it.
    pub music_id2: u32,
    pub group: Group,
    /// When the recruitment was opened.
    pub time: Timestamp,
    /// How many players have joined.
    pub players: u32,
    pub event_mode: bool,
    pub friend_only: bool,
}

/// The model of a [`Recruit`].
pub struct RecruitView {
    pub flag: bool,
    pub unknown0: u32,
    pub host: Ipv4Address,
    pub aime_id: u32,
    pub name: Seq<char>,
    pub chara: u32,
    pub chara_level: u32,
    pub skill: u32,
    pub skill_level: u32,
    pub trophy: u32,
    pub trophy2: u32,
    pub trophy3: u32,
    pub rating: u32,
    pub music_id: u32,
    pub difficulty: u32,
    pub team: Seq<char>,
    pub avatar_wear: u32,
    pub avatar_head: u32,
    pub avatar_face: u32,
    pub avatar_skin: u32,
    pub avatar_item: u32,
    pub avatar_front: u32,
    pub avatar_back: u32,
    pub music_id2: u32,
    pub group: Group,
    pub time: Timestamp,
    pub players: u32,
    pub event_mode: bool,
    pub friend_only: bool,
}

impl View for Recruit {
    type V = RecruitView;

    open spec fn view(&self) -> RecruitView {
        RecruitView {
            flag: self.flag,
            unknown0: self.unknown0,
            host: self.host,
            aime_id: self.aime_id,
            name: self.name@,
            chara: self.chara,
            chara_level: self.chara_level,
            skill: self.skill,
            skill_level: self.skill_level,
            trophy: self.trophy,
            trophy2: self.trophy2,
            trophy3: self.trophy3,
            rating: self.rating,
            music_id: self.music_id,
            difficulty: self.difficulty,
            team: self.team@,
            avatar_wear: self.avatar_wear,
            avatar_head: self.avatar_head,
            avatar_face: self.avatar_face,
            avatar_skin: self.avatar_skin,
            avatar_item: self.avatar_item,
            avatar_front: self.avatar_front,
            avatar_back: self.avatar_back,
            music_id2: self.music_id2,
            group: self.group,
            time: self.time,
            players: self.players,
            event_mode: self.event_mode,
            friend_only: self.friend_only,
        }
    }
}

impl Recruit {
    /// A recruit record at the front of `s`.
    ///
    /// The record has three runs of fixed layout with a text field after the
    /// first and after the second: `s` itself starts with the first run,
    /// `mid` is what follows the name, `tail` what follows the team. Integers
    /// are little-endian but for the host address, which is in network order.
    ///
    /// | run  | offset | width  | field                         |
    /// |------|--------|--------|-------------------------------|
    /// | s    | 0      | 15     | reserved                      |
    /// | s    | 15     | 1      | flag                          |
    /// | s    | 16     | 4      | unknown0                      |
    /// | s    | 20     | 4      | host                          |
    /// | s    | 24     | 4      | aime_id                       |
    /// | s    | 28     | 4      | constant zero                 |
    /// | s    | 32     | text   | name                          |
    /// | mid  | 0      | 4 × 10 | chara .. difficulty           |
    /// | mid  | 40     | 8      | constant one                  |
    /// | mid  | 48     | text   | team                          |
    /// | tail | 0      | 30     | reserved                      |
    /// | tail | 30     | 4 × 7  | avatar_wear .. avatar_back    |
    /// | tail | 58     | 16     | reserved                      |
    /// | tail | 74     | 4      | music_id2                     |
    /// | tail | 78     | 4      | group                         |
    /// | tail | 82     | 4      | event flag word               |
    /// | tail | 86     | 4      | unknown word                  |
    /// | tail | 90     | 4      | constant minus one            |
    /// | tail | 94     | 5      | reserved                      |
    /// | tail | 99     | 4      | time, seconds since the epoch |
    /// | tail | 103    | 4      | players                       |
    /// | tail | 107    | 1      | event_mode                    |
    /// | tail | 108    | 1      | friend_only                   |
    pub open spec fn decode(s: Seq<u8>) -> Decoded<RecruitView> {
        if s.len() < 32 {
            Err(ParseError::UnexpectedEof)
        } else {
            match text_field(s.skip(32)) {
                Err(e) => Err(e),
                Ok((name, name_len)) => {
                    let mid = s.skip(32 + name_len as int);
                    if mid.len() < 48 {
                        Err(ParseError::UnexpectedEof)
                    } else {
                        match text_field(mid.skip(48)) {
                            Err(e) => Err(e),
                            Ok((team, team_len)) => {
                                let tail = mid.skip(48 + team_len as int);
                                if tail.len() < 109 {
                                    Err(ParseError::UnexpectedEof)
                                } else {
                                    Ok(
                                        (
                                            RecruitView {
                                                flag: s[15] != 0,
                                                unknown0: le_u32_at(s, 16),
                                                host: Ipv4Address { bits: be_u32_at(s, 20) },
                                                aime_id: le_u32_at(s, 24),
                                                name,
                                                chara: le_u32_at(mid, 0),
                                                chara_level: le_u32_at(mid, 4),
                                                skill: le_u32_at(mid, 8),
                                                skill_level: le_u32_at(mid, 12),
                                                trophy: le_u32_at(mid, 16),
                                                trophy2: le_u32_at(mid, 20),
                                                trophy3: le_u32_at(mid, 24),
                                                rating: le_u32_at(mid, 28),
                                                music_id: le_u32_at(mid, 32),
                                                difficulty: le_u32_at(mid, 36),
                                                team,
                                                avatar_wear: le_u32_at(tail, 30),
                                                avatar_head: le_u32_at(tail, 34),
                                                avatar_face: le_u32_at(tail, 38),
                                                avatar_skin: le_u32_at(tail, 42),
                                                avatar_item: le_u32_at(tail, 46),
                                                avatar_front: le_u32_at(tail, 50),
                                                avatar_back: le_u32_at(tail, 54),
                                                music_id2: le_u32_at(tail, 74),
                                                group: Group::of(le_u32_at(tail, 78)),
                                                time: Timestamp::resolve(
                                                    calendar_seconds(le_i32_at(tail, 99) as i64),
                                                ),
                                                players: le_u32_at(tail, 103),
                                                event_mode: tail[107] != 0,
                                                friend_only: tail[108] != 0,
                                            },
                                            32 + name_len + 48 + team_len + 109,
                                        ),
                                    )
                                }
                            },
                        }
                    }
                },
            }
        }
    }

    /// Reads a recruit record.
    pub fn parse(reader: &mut Reader) -> (r: Result<Recruit, ParseError>)
        ensures
            final(reader).input() == old(reader).input(),
            match Recruit::decode(old(reader).remaining()) {
                Ok((v, n)) => r matches Ok(x) && x@ == v && final(reader).follows(*old(reader), n),
                Err(e) => r matches Err(x) && x == e,
            },
    {
        let ghost s = reader.remaining();
        let lead = Lead::parse(reader)?;
        assert(reader.remaining() == s.skip(32));
        let name = reader.read_string()?;
        let ghost mid = reader.remaining();
        assert(mid == s.skip(32 + text_field(s.skip(32))->Ok_0.1 as int));
        let play = Play::parse(reader)?;
        assert(reader.remaining() == mid.skip(48));
        let team = reader.read_string()?;
        let ghost tail = reader.remaining();
        assert(tail == mid.skip(48 + text_field(mid.skip(48))->Ok_0.1 as int));
        let tail_run = Tail::parse(reader)?;
        Ok(Recruit {
            flag: lead.flag,
            unknown0: lead.unknown0,
            host: lead.host,
            aime_id: lead.aime_id,
            name,
            chara: play.chara,
            chara_level: play.chara_level,
            skill: play.skill,
            skill_level: play.skill_level,
            trophy: play.trophy,
            trophy2: play.trophy2,
            trophy3: play.trophy3,
            rating: play.rating,
            music_id: play.music_id,
            difficulty: play.difficulty,
            team,
            avatar_wear: tail_run.avatar_wear,
            avatar_head: tail_run.avatar_head,
            avatar_face: tail_run.avatar_face,
            avatar_skin: tail_run.avatar_skin,
            avatar_item: tail_run.avatar_item,
            avatar_front: tail_run.avatar_front,
            avatar_back: tail_run.avatar_back,
            music_id2: tail_run.music_id2,
            group: tail_run.group,
            time: tail_run.time,
            players: tail_run.players,
            event_mode: tail_run.event_mode,
            friend_only: tail_run.friend_only,
        })
    }
}

/// Every group value is kept: the group it names has that value, known or
/// not.
pub proof fn lemma_group_keeps_value(v: u32)
    ensures
        Group::of(v).wire_code() == v,
        !(1 <= v <= 4) ==> Group::of(v) == Group::Unknown(v),
{
}

} // verus!
