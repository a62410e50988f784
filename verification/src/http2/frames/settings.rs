//! SETTINGS frames (RFC 9113 6.5).
use vstd::prelude::*;

use crate::http2::response::ResponseSerialize;
use crate::wire::{be_value, push_u16_be, push_u32_be, read_u16_be, read_u32_be, u16_be, u32_be};

use super::frame::{FrameError, MIN_FRAME_SIZE};

verus! {

/// A setting is a 16-bit identifier and a 32-bit value: 6 bytes.
pub const TUPLE_LENGTH: usize = 6;

/// The settings of RFC 9113 6.5.2.
#[derive(Copy, Clone, Debug, PartialEq, Eq, Structural)]
pub enum SettingKind {
    HeaderTableSize,
    EnablePush,
    MaxConcurrentStreams,
    InitialWindowSize,
    MaxFrameSize,
    MaxHeaderListSize,
}

/// The setting a 16-bit identifier names, if it is one of the six.
pub open spec fn setting_kind_of(value: u16) -> Option<SettingKind> {
    match value {
        1 => Some(SettingKind::HeaderTableSize),
        2 => Some(SettingKind::EnablePush),
        3 => Some(SettingKind::MaxConcurrentStreams),
        4 => Some(SettingKind::InitialWindowSize),
        5 => Some(SettingKind::MaxFrameSize),
        6 => Some(SettingKind::MaxHeaderListSize),
        _ => None,
    }
}

impl SettingKind {
    /// The 16-bit identifier written on the wire.
    pub open spec fn spec_code(self) -> u16 {
        match self {
            SettingKind::HeaderTableSize => 1,
            SettingKind::EnablePush => 2,
            SettingKind::MaxConcurrentStreams => 3,
            SettingKind::InitialWindowSize => 4,
            SettingKind::MaxFrameSize => 5,
            SettingKind::MaxHeaderListSize => 6,
        }
    }

    /// The 16-bit identifier written on the wire.
    pub fn code(self) -> (r: u16)
        ensures
            r == self.spec_code(),
    {
        match self {
            SettingKind::HeaderTableSize => 1,
            SettingKind::EnablePush => 2,
            SettingKind::MaxConcurrentStreams => 3,
            SettingKind::InitialWindowSize => 4,
            SettingKind::MaxFrameSize => 5,
            SettingKind::MaxHeaderListSize => 6,
        }
    }

    /// The setting an identifier names; an error for identifiers outside 1..=6.
    pub fn try_from(value: u16) -> (r: Result<SettingKind, &'static str>)
        ensures
            match setting_kind_of(value) {
                Some(k) => r == Ok::<SettingKind, &'static str>(k),
                None => r is Err,
            },
    {
        match value {
            1 => Ok(SettingKind::HeaderTableSize),
            2 => Ok(SettingKind::EnablePush),
            3 => Ok(SettingKind::MaxConcurrentStreams),
            4 => Ok(SettingKind::InitialWindowSize),
            5 => Ok(SettingKind::MaxFrameSize),
            6 => Ok(SettingKind::MaxHeaderListSize),
            _ => Err("Unknown parameter number"),
        }
    }
}

/// A setting and its value.
pub type Setting = (SettingKind, u32);

/// The setting held in the 6 bytes of `payload` at `at`, if its identifier is known.
pub open spec fn setting_entry_at(payload: Seq<u8>, at: int) -> Seq<Setting> {
    match setting_kind_of(be_value(payload.subrange(at, at + 2)) as u16) {
        Some(k) => seq![(k, be_value(payload.subrange(at + 2, at + 6)) as u32)],
        None => seq![],
    }
}

/// The known settings among the first `n` 6-byte entries of `payload`, in order.
pub open spec fn setting_entries(payload: Seq<u8>, n: nat) -> Seq<Setting>
    decreases n,
{
    if n == 0 {
        seq![]
    } else {
        setting_entries(payload, (n - 1) as nat) + setting_entry_at(payload, (n - 1) * 6)
    }
}

/// The bytes of a list of settings: identifier then value, for each in order.
pub open spec fn settings_bytes(s: Seq<Setting>) -> Seq<u8>
    decreases s.len(),
{
    if s.len() == 0 {
        seq![]
    } else {
        settings_bytes(s.drop_last()) + u16_be(s.last().0.spec_code()) + u32_be(s.last().1)
    }
}

/// The value of the first setting of `kind` in the list, if any.
pub open spec fn first_value(s: Seq<Setting>, kind: SettingKind) -> Option<u32>
    decreases s.len(),
{
    if s.len() == 0 {
        None
    } else if s[0].0 == kind {
        Some(s[0].1)
    } else {
        first_value(s.drop_first(), kind)
    }
}

/// A SETTINGS frame: an acknowledgement, or a list of settings.
#[derive(Clone, Debug)]
pub struct Settings {
    is_ack: bool,
    flags: Vec<Setting>,
}

impl Settings {
    /// Whether the frame is an acknowledgement.
    pub closed spec fn spec_is_ack(&self) -> bool {
        self.is_ack
    }

    /// The settings carried, in order.
    pub closed spec fn spec_settings(&self) -> Seq<Setting> {
        self.flags@
    }

    /// The server's own settings: at most 1000 concurrent streams, an initial
    /// window of 65535 bytes, header lists of at most 100 bytes.
    pub fn default() -> (r: Self)
        ensures
            !r.spec_is_ack(),
            r.spec_settings() == seq![
                (SettingKind::MaxConcurrentStreams, 1000u32),
                (SettingKind::InitialWindowSize, 65535u32),
                (SettingKind::MaxHeaderListSize, 100u32),
            ],
    {
        let flags: Vec<Setting> = vec![
            (SettingKind::MaxConcurrentStreams, 1000),
            (SettingKind::InitialWindowSize, 65535),
            (SettingKind::MaxHeaderListSize, 100),
        ];
        assert(flags@ =~= seq![
            (SettingKind::MaxConcurrentStreams, 1000u32),
            (SettingKind::InitialWindowSize, 65535u32),
            (SettingKind::MaxHeaderListSize, 100u32),
        ]);
        Self { is_ack: false, flags }
    }

    /// Reads a SETTINGS payload of announced `length`. `SettingsFrameSize`
    /// when `length` is not a multiple of 6; else `BadFrameSize` when fewer
    /// than `length` bytes are there; else the known settings of the `length /
    /// 6` entries, in order, unknown identifiers skipped.
    pub fn from_bytes(value: &[u8], length: usize) -> (r: Result<Self, FrameError>)
        ensures
            length % 6 != 0 ==> r == Err::<Settings, FrameError>(FrameError::SettingsFrameSize(length)),
            length % 6 == 0 && value@.len() < length ==> r == Err::<Settings, FrameError>(
                FrameError::BadFrameSize(value@.len() as usize),
            ),
            length % 6 == 0 && value@.len() >= length ==> (r matches Ok(s) && !s.spec_is_ack()
                && s.spec_settings() == setting_entries(value@, (length / 6) as nat)),
    {
        if length % 6 != 0 {
            return Err(FrameError::SettingsFrameSize(length));
        }
        if value.len() < length {
            return Err(FrameError::BadFrameSize(value.len()));
        }
        let mut flags: Vec<Setting> = Vec::new();
        let mut i: usize = 0;
        let ghost mut k: nat = 0;
        while i < length
            invariant
                i == 6 * k,
                i <= length <= value@.len(),
                length % 6 == 0,
                flags@ == setting_entries(value@, k),
            decreases length - i,
        {
            let identifier = read_u16_be(value, i);
            let setting_value = read_u32_be(value, i + 2);
            let ghost before = flags@;
            match SettingKind::try_from(identifier) {
                Ok(sid) => {
                    flags.push((sid, setting_value));
                },
                Err(_) => {},
            }
            proof {
                assert(setting_entries(value@, k + 1) == before + setting_entry_at(value@, (k * 6) as int));
                k = k + 1;
            }
            assert(flags@ =~= setting_entries(value@, k));
            i = i + 6;
        }
        assert(k == length / 6);
        Ok(Self { flags, is_ack: false })
    }

    /// An acknowledgement: no settings, the ACK flag set.
    pub fn new_ack() -> (r: Self)
        ensures
            r.spec_is_ack(),
            r.spec_settings() == Seq::<Setting>::empty(),
    {
        Self { is_ack: true, flags: Vec::new() }
    }

    /// The first value of `kind` among the settings, if any.
    pub fn get_setting(&self, kind: SettingKind) -> (r: Option<u32>)
        ensures
            r == first_value(self.spec_settings(), kind),
    {
        let mut i: usize = 0;
        assert(self.flags@.subrange(0, self.flags@.len() as int) =~= self.flags@);
        while i < self.flags.len()
            invariant
                i <= self.flags@.len(),
                first_value(self.flags@, kind) == first_value(self.flags@.subrange(i as int, self.flags@.len() as int), kind),
            decreases self.flags@.len() - i,
        {
            let ghost rest = self.flags@.subrange(i as int, self.flags@.len() as int);
            assert(rest.drop_first() =~= self.flags@.subrange(i + 1, self.flags@.len() as int));
            if self.flags[i].0 == kind {
                return Some(self.flags[i].1);
            }
            i = i + 1;
        }
        None
    }

    /// The SETTINGS_ENABLE_PUSH value announced, if any.
    pub fn is_push_enabled(&self) -> (r: Option<u32>)
        ensures
            r == first_value(self.spec_settings(), SettingKind::EnablePush),
    {
        self.get_setting(SettingKind::EnablePush)
    }

    /// The SETTINGS_INITIAL_WINDOW_SIZE value announced, if any.
    pub fn get_initial_window_size(&self) -> (r: Option<u32>)
        ensures
            r == first_value(self.spec_settings(), SettingKind::InitialWindowSize),
    {
        self.get_setting(SettingKind::InitialWindowSize)
    }

    /// The SETTINGS_MAX_FRAME_SIZE value announced, or its initial value 16384
    /// when the frame carries none.
    pub fn get_max_frame_size(&self) -> (r: u32)
        ensures
            r == match first_value(self.spec_settings(), SettingKind::MaxFrameSize) {
                Some(v) => v,
                None => MIN_FRAME_SIZE,
            },
    {
        match self.get_setting(SettingKind::MaxFrameSize) {
            Some(v) => v,
            None => MIN_FRAME_SIZE,
        }
    }
}

impl ResponseSerialize for Settings {
    open spec fn is_payload(&self, payload: Seq<u8>) -> bool {
        payload == if self.spec_is_ack() {
            Seq::<u8>::empty()
        } else {
            settings_bytes(self.spec_settings())
        }
    }

    open spec fn is_frame_length(&self, n: u32) -> bool {
        n == (TUPLE_LENGTH * self.spec_settings().len()) as u32
    }

    open spec fn needs_encoder(&self) -> bool {
        false
    }

    open spec fn spec_flags(&self) -> u8 {
        if self.spec_is_ack() {
            0x01
        } else {
            0x00
        }
    }

    fn serialize_response(&self, encoder: Option<&mut fluke_hpack::Encoder>) -> (r: Vec<u8>) {
        let mut result: Vec<u8> = Vec::new();
        if self.is_ack {
            return result;
        }
        let mut i: usize = 0;
        while i < self.flags.len()
            invariant
                i <= self.flags@.len(),
                !self.is_ack,
                result@ == settings_bytes(self.flags@.subrange(0, i as int)),
            decreases self.flags@.len() - i,
        {
            let (kind, value) = self.flags[i];
            push_u16_be(&mut result, kind.code());
            push_u32_be(&mut result, value);
            assert(self.flags@.subrange(0, i + 1).drop_last() =~= self.flags@.subrange(0, i as int));
            i = i + 1;
        }
        assert(self.flags@.subrange(0, self.flags@.len() as int) =~= self.flags@);
        result
    }

    fn compute_frame_length(&self, encoder: Option<&mut fluke_hpack::Encoder>) -> (r: u32) {
        (TUPLE_LENGTH as u128 * self.flags.len() as u128) as u32
    }

    fn get_flags(&self) -> (r: u8) {
        if self.is_ack {
            0x01
        } else {
            0x00
        }
    }
}

/// The bytes of `n` settings are `6 * n` bytes long.
pub proof fn lemma_settings_bytes_len(s: Seq<Setting>)
    ensures
        settings_bytes(s).len() == 6 * s.len(),
    decreases s.len(),
{
    if s.len() > 0 {
        lemma_settings_bytes_len(s.drop_last());
    }
}

/// The first `n` entries depend on the first `6 * n` bytes only.
pub proof fn lemma_setting_entries_prefix(p: Seq<u8>, q: Seq<u8>, n: nat)
    requires
        p.len() >= 6 * n,
        q.len() >= 6 * n,
        p.subrange(0, 6 * n as int) == q.subrange(0, 6 * n as int),
    ensures
        setting_entries(p, n) == setting_entries(q, n),
    decreases n,
{
    if n > 0 {
        let m: int = n - 1;
        let e: int = 6 * n as int;
        let at: int = m * 6;
        assert(p.subrange(0, 6 * m) =~= p.subrange(0, e).subrange(0, 6 * m));
        assert(q.subrange(0, 6 * m) =~= q.subrange(0, e).subrange(0, 6 * m));
        lemma_setting_entries_prefix(p, q, m as nat);
        assert(p.subrange(at, at + 2) =~= p.subrange(0, e).subrange(at, at + 2));
        assert(q.subrange(at, at + 2) =~= q.subrange(0, e).subrange(at, at + 2));
        assert(p.subrange(at + 2, at + 6) =~= p.subrange(0, e).subrange(at + 2, at + 6));
        assert(q.subrange(at + 2, at + 6) =~= q.subrange(0, e).subrange(at + 2, at + 6));
    }
}

/// Reading back the written bytes of a list of settings, followed by any
/// bytes, as `s.len()` entries gives the same list.
pub proof fn lemma_settings_roundtrip(s: Seq<Setting>, extra: Seq<u8>)
    ensures
        setting_entries(settings_bytes(s) + extra, s.len()) == s,
    decreases s.len(),
{
    lemma_settings_bytes_len(s);
    if s.len() > 0 {
        let init = s.drop_last();
        let b = settings_bytes(s) + extra;
        let bi = settings_bytes(init);
        lemma_settings_bytes_len(init);
        lemma_settings_roundtrip(init, extra);
        let m: int = init.len() as int;
        assert(b.subrange(0, 6 * m) =~= (bi + extra).subrange(0, 6 * m));
        lemma_setting_entries_prefix(b, bi + extra, m as nat);
        let at: int = m * 6;
        let (kind, value) = s.last();
        crate::wire::lemma_u16_be_roundtrip(kind.spec_code());
        crate::wire::lemma_u32_be_roundtrip(value);
        assert(b.subrange(at, at + 2) =~= u16_be(kind.spec_code()));
        assert(b.subrange(at + 2, at + 6) =~= u32_be(value));
        assert(setting_kind_of(kind.spec_code()) == Some(kind));
        assert(setting_entries(b, s.len()) =~= s);
    }
}

/// Whether each of the first `n` 6-byte entries of `payload` has an
/// identifier of a known setting.
pub open spec fn entries_known(payload: Seq<u8>, n: nat) -> bool {
    forall|k: int|
        0 <= k < n ==> (#[trigger] setting_kind_of(be_value(payload.subrange(6 * k, 6 * k + 2)) as u16)) is Some
}

/// Writing back the known settings of the first `n` entries, when all of
/// them are known, gives the first `6 * n` bytes.
proof fn lemma_entries_written_back(payload: Seq<u8>, n: nat)
    requires
        payload.len() >= 6 * n,
        entries_known(payload, n),
    ensures
        settings_bytes(setting_entries(payload, n)) == payload.subrange(0, 6 * n as int),
    decreases n,
{
    if n > 0 {
        let m: nat = (n - 1) as nat;
        let at: int = 6 * (m as int);
        assert(entries_known(payload, m)) by {
            assert forall|k: int| 0 <= k < m implies (#[trigger] setting_kind_of(
                be_value(payload.subrange(6 * k, 6 * k + 2)) as u16,
            )) is Some by {
                assert(0 <= k < n);
            }
        }
        lemma_entries_written_back(payload, m);
        let id = payload.subrange(at, at + 2);
        let val = payload.subrange(at + 2, at + 6);
        assert(setting_kind_of(be_value(payload.subrange(6 * (m as int), 6 * (m as int) + 2)) as u16) is Some);
        let kind = setting_kind_of(be_value(id) as u16).unwrap();
        assert(kind.spec_code() == be_value(id) as u16);
        crate::wire::lemma_u16_be_of_bytes(id);
        crate::wire::lemma_u32_be_of_bytes(val);
        assert(m * 6 == at);
        let entries = setting_entries(payload, n);
        assert(entries == setting_entries(payload, m) + seq![(kind, be_value(val) as u32)]);
        assert(entries.drop_last() =~= setting_entries(payload, m));
        assert(payload.subrange(0, 6 * n as int) =~= payload.subrange(0, at) + id + val);
    }
}

/// Settings read then written back: a SETTINGS payload whose announced
/// `length` is a multiple of 6, with at least `length` bytes there and a
/// known identifier in every entry, is read into settings whose bytes are
/// the payload's first `length` bytes, in order; the bytes past `length` play
/// no part.
pub proof fn lemma_settings_read_then_written(value: Seq<u8>, length: nat)
    requires
        length % 6 == 0,
        value.len() >= length,
        entries_known(value, length / 6),
    ensures
        settings_bytes(setting_entries(value, length / 6)) == value.subrange(0, length as int),
{
    lemma_entries_written_back(value, length / 6);
    assert(6 * (length / 6) == length);
}

} // verus!
