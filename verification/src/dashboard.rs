//! What the terminal dashboard shows of a trade or a log line, apart from
//! colours: the short time stamp, the clipped exit reason, and the kind of a
//! status or log level that picks the style.

use crate::text::str_eq;
use vstd::prelude::*;
use vstd::string::StringSliceAdditionalSpecFns;
use vstd::utf8::{
    encode_utf8_valid_utf8, is_char_boundary, is_char_boundary_iff_not_is_continuation_byte,
};

verus! {

/// Characters of an exit reason shown in the trades table.
pub const REASON_CHARS: usize = 25;

/// The kind of a trade's status, which picks its style.
#[derive(Debug, Clone, Copy, PartialEq, Eq, Structural)]
pub enum StatusKind {
    Open,
    Closed,
    Other,
}

/// The kind of a log line's level, which picks its style.
#[derive(Debug, Clone, Copy, PartialEq, Eq, Structural)]
pub enum LevelKind {
    Error,
    Warn,
    Info,
    Other,
}

/// `OPEN`, `CLOSED`, or anything else.
pub open spec fn status_kind_of(status: Seq<char>) -> StatusKind {
    if status == "OPEN"@ {
        StatusKind::Open
    } else if status == "CLOSED"@ {
        StatusKind::Closed
    } else {
        StatusKind::Other
    }
}

/// `ERROR`, `WARN`, `INFO`, or anything else.
pub open spec fn level_kind_of(level: Seq<char>) -> LevelKind {
    if level == "ERROR"@ {
        LevelKind::Error
    } else if level == "WARN"@ {
        LevelKind::Warn
    } else if level == "INFO"@ {
        LevelKind::Info
    } else {
        LevelKind::Other
    }
}

/// Classifies a trade's status.
pub fn status_kind(status: &str) -> (k: StatusKind)
    ensures
        k == status_kind_of(status@),
        (k == StatusKind::Open) == (status@ == "OPEN"@),
        (k == StatusKind::Closed) == (status@ == "CLOSED"@),
{
    proof {
        reveal_strlit("OPEN");
        reveal_strlit("CLOSED");
        assert("OPEN"@.len() != "CLOSED"@.len());
    }
    if str_eq(status, "OPEN") {
        StatusKind::Open
    } else if str_eq(status, "CLOSED") {
        StatusKind::Closed
    } else {
        StatusKind::Other
    }
}

/// Classifies a log line's level.
pub fn level_kind(level: &str) -> (k: LevelKind)
    ensures
        k == level_kind_of(level@),
        (k == LevelKind::Error) == (level@ == "ERROR"@),
        (k == LevelKind::Warn) == (level@ == "WARN"@),
        (k == LevelKind::Info) == (level@ == "INFO"@),
{
    proof {
        reveal_strlit("ERROR");
        reveal_strlit("WARN");
        reveal_strlit("INFO");
        assert("ERROR"@.len() != "WARN"@.len());
        assert("ERROR"@.len() != "INFO"@.len());
        assert("WARN"@[0] != "INFO"@[0]);
    }
    if str_eq(level, "ERROR") {
        LevelKind::Error
    } else if str_eq(level, "WARN") {
        LevelKind::Warn
    } else if str_eq(level, "INFO") {
        LevelKind::Info
    } else {
        LevelKind::Other
    }
}

/// The exit-reason cell: the first 25 characters of the reason, or `—`
/// when the trade has none.
pub open spec fn reason_cell_text(reason: Option<Seq<char>>) -> Seq<char> {
    match reason {
        Some(r) => if r.len() <= REASON_CHARS {
            r
        } else {
            r.subrange(0, REASON_CHARS as int)
        },
        None => "—"@,
    }
}

/// The exit-reason cell of a trade.
pub fn reason_cell(reason: Option<&str>) -> (cell: String)
    ensures
        cell@ == reason_cell_text(
            match reason {
                Some(r) => Some(r@),
                None => None,
            },
        ),
        reason is Some && reason->0@.len() <= 25 ==> cell@ == reason->0@,
        reason is Some && reason->0@.len() > 25 ==> cell@ == reason->0@.subrange(0, 25)
            && cell@.len() == 25,
        reason is None ==> cell@ == "—"@,
{
    match reason {
        Some(r) => {
            if r.unicode_len() <= REASON_CHARS {
                r.to_owned()
            } else {
                r.substring_char(0, REASON_CHARS).to_owned()
            }
        },
        None => "—".to_owned(),
    }
}

/// The time column: bytes 5 to 16 of a time stamp longer than 16 bytes
/// (`YYYY-MM-DD HH:MM:SS` becomes `MM-DD HH:MM`), else the whole stamp.
/// Byte offsets 5 and 16 must fall on character boundaries when the stamp is
/// that long.
pub fn short_time(stamp: &str) -> (r: &str)
    requires
        stamp.spec_bytes().len() > 16 ==> is_char_boundary(stamp.spec_bytes(), 5)
            && is_char_boundary(stamp.spec_bytes(), 16),
    ensures
        stamp.spec_bytes().len() > 16 ==> r.spec_bytes() == stamp.spec_bytes().subrange(5, 16),
        stamp.spec_bytes().len() <= 16 ==> r@ == stamp@,
{
    if stamp.as_bytes().len() > 16 {
        let (_, rest) = stamp.split_at(5);
        proof {
            let b = stamp.spec_bytes();
            let rb = rest.spec_bytes();
            encode_utf8_valid_utf8(stamp@);
            encode_utf8_valid_utf8(rest@);
            is_char_boundary_iff_not_is_continuation_byte(b, 16);
            assert(rb[11] == b[16]);
            is_char_boundary_iff_not_is_continuation_byte(rb, 11);
        }
        let (mid, _) = rest.split_at(11);
        assert(mid.spec_bytes() =~= stamp.spec_bytes().subrange(5, 16));
        mid
    } else {
        stamp
    }
}

} // verus!
