//! Windows: power schemes, lid actions and battery status.

use vstd::prelude::*;
use vstd::string::*;

use crate::error::{AppError, Fault, chain, chained, outcome, viewed};
use crate::supervisor::{Battery, BatteryStatus, battery_status, plain_battery};
use crate::text;

verus! {

/// The identifier of a power scheme.
#[derive(Clone, Copy, Debug)]
pub struct Guid {
    pub data1: u32,
    pub data2: u16,
    pub data3: u16,
    pub data4: [u8; 8],
}

impl View for Guid {
    type V = (u32, u16, u16, Seq<u8>);

    open spec fn view(&self) -> (u32, u16, u16, Seq<u8>) {
        (self.data1, self.data2, self.data3, self.data4@)
    }
}

/// Bytes as pairs of hexadecimal digits.
pub open spec fn hex_bytes(bytes: Seq<u8>) -> Seq<char>
    decreases bytes.len(),
{
    if bytes.len() == 0 {
        Seq::empty()
    } else {
        hex_bytes(bytes.drop_last()) + text::hex(bytes.last() as nat, 2)
    }
}

/// How an identifier is written: groups of hexadecimal digits in lower case, joined by hyphens.
pub open spec fn guid_text(guid: (u32, u16, u16, Seq<u8>)) -> Seq<char> {
    text::hex(guid.0 as nat, 8) + seq!['-'] + text::hex(guid.1 as nat, 4) + seq!['-'] + text::hex(
        guid.2 as nat,
        4,
    ) + seq!['-'] + hex_bytes(guid.3.take(2)) + seq!['-'] + hex_bytes(guid.3.skip(2))
}

fn append_bytes(out: &mut String, bytes: &[u8; 8], from: usize, to: usize)
    requires
        from <= to <= 8,
    ensures
        final(out)@ == old(out)@ + hex_bytes(bytes@.subrange(from as int, to as int)),
{
    let ghost start = out@;
    let mut i: usize = from;
    assert(out@ =~= start + hex_bytes(bytes@.subrange(from as int, from as int)));
    while i < to
        invariant
            from <= i <= to <= 8,
            out@ == start + hex_bytes(bytes@.subrange(from as int, i as int)),
        decreases to - i,
    {
        let pair = text::hex_text(bytes[i] as u32, 2);
        out.append(pair.as_str());
        assert(bytes@.subrange(from as int, i + 1).drop_last() =~= bytes@.subrange(
            from as int,
            i as int,
        ));
        assert(out@ =~= start + hex_bytes(bytes@.subrange(from as int, i + 1)));
        i = i + 1;
    }
}

/// How an identifier is written.
pub fn format_guid(guid: &Guid) -> (r: String)
    ensures
        r@ == guid_text(guid@),
{
    let mut r = text::hex_text(guid.data1, 8);
    r.push('-');
    r.append(text::hex_text(guid.data2 as u32, 4).as_str());
    r.push('-');
    r.append(text::hex_text(guid.data3 as u32, 4).as_str());
    r.push('-');
    append_bytes(&mut r, &guid.data4, 0, 2);
    r.push('-');
    append_bytes(&mut r, &guid.data4, 2, 8);
    assert(guid.data4@.subrange(0, 2) =~= guid.data4@.take(2));
    assert(guid.data4@.subrange(2, 8) =~= guid.data4@.skip(2));
    assert(r@ =~= guid_text(guid@));
    r
}

/// The hexadecimal number between two places of an identifier's text.
pub open spec fn guid_part(raw: Seq<char>, from: int, to: int) -> Option<nat> {
    text::hex_number(raw.subrange(from, to))
}

/// Where the eight last bytes of an identifier stand in its text.
pub open spec fn byte_place(i: int) -> int {
    if i < 2 {
        19 + 2 * i
    } else {
        20 + 2 * i
    }
}

/// Whether `raw` has the length of an identifier and a number in each of its groups.
pub open spec fn guid_shaped(raw: Seq<char>) -> bool {
    &&& vstd::utf8::is_ascii_chars(raw)
    &&& raw.len() == 36
    &&& guid_part(raw, 0, 8) is Some
    &&& guid_part(raw, 9, 13) is Some
    &&& guid_part(raw, 14, 18) is Some
    &&& forall|i: int|
        0 <= i < 8 ==> #[trigger] guid_part(raw, byte_place(i), byte_place(i) + 2) is Some
}

/// The numbers in the groups of `raw`.
pub open spec fn guid_parts(raw: Seq<char>) -> (u32, u16, u16, Seq<u8>) {
    (
        guid_part(raw, 0, 8)->0 as u32,
        guid_part(raw, 9, 13)->0 as u16,
        guid_part(raw, 14, 18)->0 as u16,
        Seq::new(8, |i: int| guid_part(raw, byte_place(i), byte_place(i) + 2)->0 as u8),
    )
}

/// The identifier that `raw` writes, in the one way that it is written.
pub open spec fn guid_of(raw: Seq<char>) -> Result<(u32, u16, u16, Seq<u8>), Fault> {
    if !guid_shaped(raw) {
        Err(Fault::Fail("invalid canonical power-scheme GUID"@))
    } else if guid_text(guid_parts(raw)) != raw {
        Err(Fault::Fail("power-scheme GUID is not canonical"@))
    } else {
        Ok(guid_parts(raw))
    }
}

/// The identifier that `raw` writes.
pub fn parse_guid(raw: &str) -> (r: Result<Guid, AppError>)
    ensures
        viewed(r) == guid_of(raw@),
{
    let chars = text::chars_of(raw);
    if !raw.is_ascii() || chars.len() != 36 {
        return Err(AppError::fail("invalid canonical power-scheme GUID"));
    }
    proof {
        reveal_with_fuel(text::hex_range, 9);
    }
    let mut data4: [u8; 8] = [0u8, 0, 0, 0, 0, 0, 0, 0];
    let mut i: usize = 0;
    while i < 8
        invariant
            i <= 8,
            chars@ == raw@,
            chars@.len() == 36,
            forall|k: int|
                0 <= k < i ==> guid_part(raw@, byte_place(k), byte_place(k) + 2) == Some(
                    (#[trigger] data4@[k]) as nat,
                ),
        decreases 8 - i,
    {
        let at: usize = if i < 2 {
            19 + 2 * i
        } else {
            20 + 2 * i
        };
        proof {
            reveal_with_fuel(text::hex_range, 9);
        }
        match text::read_hex(&chars, at, at + 2) {
            None => {
                assert(guid_part(raw@, byte_place(i as int), byte_place(i as int) + 2) is None);
                return Err(AppError::fail("invalid canonical power-scheme GUID"));
            },
            Some(n) => {
                data4[i] = n as u8;
            },
        }
        i = i + 1;
    }
    let data1 = match text::read_hex(&chars, 0, 8) {
        None => return Err(AppError::fail("invalid canonical power-scheme GUID")),
        Some(n) => n,
    };
    let data2 = match text::read_hex(&chars, 9, 13) {
        None => return Err(AppError::fail("invalid canonical power-scheme GUID")),
        Some(n) => n as u16,
    };
    let data3 = match text::read_hex(&chars, 14, 18) {
        None => return Err(AppError::fail("invalid canonical power-scheme GUID")),
        Some(n) => n as u16,
    };
    assert forall|k: int| 0 <= k < 8 implies #[trigger] guid_part(
        raw@,
        byte_place(k),
        byte_place(k) + 2,
    ) is Some by {
        let _ = data4@[k];
    }
    let guid = Guid { data1, data2, data3, data4 };
    assert(guid_parts(raw@).3 =~= guid@.3);
    assert(guid@ == guid_parts(raw@));
    if text::same(format_guid(&guid).as_str(), raw) {
        Ok(guid)
    } else {
        Err(AppError::fail("power-scheme GUID is not canonical"))
    }
}

/// Five groups joined by hyphens.
spec fn grouped(
    a: Seq<char>,
    b: Seq<char>,
    c: Seq<char>,
    d: Seq<char>,
    e: Seq<char>,
) -> Seq<char> {
    a + seq!['-'] + b + seq!['-'] + c + seq!['-'] + d + seq!['-'] + e
}

proof fn lemma_grouped(a: Seq<char>, b: Seq<char>, c: Seq<char>, d: Seq<char>, e: Seq<char>)
    requires
        a.len() == 8,
        b.len() == 4,
        c.len() == 4,
        d.len() == 4,
        e.len() == 12,
        vstd::utf8::is_ascii_chars(a),
        vstd::utf8::is_ascii_chars(b),
        vstd::utf8::is_ascii_chars(c),
        vstd::utf8::is_ascii_chars(d),
        vstd::utf8::is_ascii_chars(e),
    ensures
        grouped(a, b, c, d, e).len() == 36,
        grouped(a, b, c, d, e).subrange(0, 8) == a,
        grouped(a, b, c, d, e).subrange(9, 13) == b,
        grouped(a, b, c, d, e).subrange(14, 18) == c,
        grouped(a, b, c, d, e).subrange(19, 23) == d,
        grouped(a, b, c, d, e).subrange(24, 36) == e,
        vstd::utf8::is_ascii_chars(grouped(a, b, c, d, e)),
{
    let raw = grouped(a, b, c, d, e);
    assert(raw.subrange(0, 8) =~= a);
    assert(raw.subrange(9, 13) =~= b);
    assert(raw.subrange(14, 18) =~= c);
    assert(raw.subrange(19, 23) =~= d);
    assert(raw.subrange(24, 36) =~= e);
}

/// An identifier is read back from the text that is written for it.
pub proof fn law_guids_are_read_back(guid: (u32, u16, u16, Seq<u8>))
    requires
        guid.3.len() == 8,
    ensures
        guid_of(guid_text(guid)) == Ok::<(u32, u16, u16, Seq<u8>), Fault>(guid),
{
    let raw = guid_text(guid);
    assert(guid.0 < text::hex_range(8) && guid.1 < text::hex_range(4) && guid.2 < text::hex_range(4))
        by {
        reveal_with_fuel(text::hex_range, 9);
    }
    text::lemma_hex_number(guid.0 as nat, 8);
    text::lemma_hex_is_ascii(guid.0 as nat, 8);
    text::lemma_hex_number(guid.1 as nat, 4);
    text::lemma_hex_is_ascii(guid.1 as nat, 4);
    text::lemma_hex_number(guid.2 as nat, 4);
    text::lemma_hex_is_ascii(guid.2 as nat, 4);
    let b = guid.3;
    let head = hex_bytes(b.take(2));
    let tail = hex_bytes(b.skip(2));
    lemma_hex_bytes(b.take(2));
    lemma_hex_bytes(b.skip(2));
    lemma_grouped(
        text::hex(guid.0 as nat, 8),
        text::hex(guid.1 as nat, 4),
        text::hex(guid.2 as nat, 4),
        head,
        tail,
    );
    assert forall|i: int| 0 <= i < 8 implies #[trigger] guid_part(
        raw,
        byte_place(i),
        byte_place(i) + 2,
    ) == Some(b[i] as nat) by {
        assert(b[i] < text::hex_range(2)) by {
            reveal_with_fuel(text::hex_range, 3);
        }
        text::lemma_hex_number(b[i] as nat, 2);
        if i < 2 {
            assert(b.take(2)[i] == b[i]);
            assert(raw.subrange(byte_place(i), byte_place(i) + 2) =~= head.subrange(
                2 * i,
                2 * i + 2,
            )) by {
                assert(raw.subrange(19, 23) == head);
                assert(raw.subrange(byte_place(i), byte_place(i) + 2) =~= raw.subrange(
                    19,
                    23,
                ).subrange(2 * i, 2 * i + 2));
            }
        } else {
            assert(b.skip(2)[i - 2] == b[i]);
            assert(raw.subrange(byte_place(i), byte_place(i) + 2) =~= tail.subrange(
                2 * (i - 2),
                2 * (i - 2) + 2,
            )) by {
                assert(raw.subrange(24, 36) == tail);
                assert(raw.subrange(byte_place(i), byte_place(i) + 2) =~= raw.subrange(
                    24,
                    36,
                ).subrange(2 * (i - 2), 2 * (i - 2) + 2));
            }
        }
    }
    assert(guid_parts(raw).3 =~= b);
}

/// Each byte stands in two digits of its own.
proof fn lemma_hex_bytes(bytes: Seq<u8>)
    ensures
        hex_bytes(bytes).len() == 2 * bytes.len(),
        forall|i: int|
            0 <= i < bytes.len() ==> hex_bytes(bytes).subrange(2 * i, 2 * i + 2) == text::hex(
                #[trigger] bytes[i] as nat,
                2,
            ),
        vstd::utf8::is_ascii_chars(hex_bytes(bytes)),
        forall|i: int|
            0 <= i < 2 * bytes.len() ==> text::hex_digit(#[trigger] hex_bytes(bytes)[i]) is Some,
    decreases bytes.len(),
{
    reveal_with_fuel(text::hex_range, 3);
    if bytes.len() > 0 {
        let front = bytes.drop_last();
        lemma_hex_bytes(front);
        text::lemma_hex(bytes.last() as nat, 2);
        text::lemma_hex_is_ascii(bytes.last() as nat, 2);
        assert forall|i: int| 0 <= i < bytes.len() implies hex_bytes(bytes).subrange(
            2 * i,
            2 * i + 2,
        ) == text::hex(#[trigger] bytes[i] as nat, 2) by {
            if i < front.len() {
                assert(front[i] == bytes[i]);
                assert(hex_bytes(bytes).subrange(2 * i, 2 * i + 2) =~= hex_bytes(front).subrange(
                    2 * i,
                    2 * i + 2,
                ));
            } else {
                assert(hex_bytes(bytes).subrange(2 * i, 2 * i + 2) =~= text::hex(
                    bytes.last() as nat,
                    2,
                ));
            }
        }
        assert forall|i: int| 0 <= i < 2 * bytes.len() implies text::hex_digit(
            #[trigger] hex_bytes(bytes)[i],
        ) is Some by {
            if i < hex_bytes(front).len() {
                assert(hex_bytes(bytes)[i] == hex_bytes(front)[i]);
            } else {
                assert(hex_bytes(bytes)[i] == text::hex(
                    bytes.last() as nat,
                    2,
                )[i - hex_bytes(front).len()]);
            }
        }
        assert forall|i: int| 0 <= i < hex_bytes(bytes).len() implies 0 <= #[trigger] (hex_bytes(
            bytes,
        )[i] as nat) < 128 by {
            if i < hex_bytes(front).len() {
                assert(hex_bytes(bytes)[i] == hex_bytes(front)[i]);
            } else {
                assert(hex_bytes(bytes)[i] == text::hex(
                    bytes.last() as nat,
                    2,
                )[i - hex_bytes(front).len()]);
            }
        }
    }
}

/// The text of an identifier breaks no line.
pub proof fn lemma_guid_is_one_line(raw: Seq<char>)
    requires
        guid_of(raw) is Ok,
    ensures
        !raw.contains('\r'),
        !raw.contains('\n'),
{
    let guid = guid_parts(raw);
    assert(guid.0 < text::hex_range(8) && guid.1 < text::hex_range(4) && guid.2 < text::hex_range(4))
        by {
        reveal_with_fuel(text::hex_range, 9);
    }
    text::lemma_hex(guid.0 as nat, 8);
    text::lemma_hex(guid.1 as nat, 4);
    text::lemma_hex(guid.2 as nat, 4);
    lemma_hex_bytes(guid.3.take(2));
    lemma_hex_bytes(guid.3.skip(2));
    let head = hex_bytes(guid.3.take(2));
    let tail = hex_bytes(guid.3.skip(2));
    assert(raw == guid_text(guid));
    assert forall|i: int| 0 <= i < raw.len() implies #[trigger] raw[i] != '\r' && raw[i]
        != '\n' by {
        if i < 8 {
            assert(text::hex_digit(text::hex(guid.0 as nat, 8)[i]) is Some);
        } else if 9 <= i < 13 {
            assert(text::hex_digit(text::hex(guid.1 as nat, 4)[i - 9]) is Some);
        } else if 14 <= i < 18 {
            assert(text::hex_digit(text::hex(guid.2 as nat, 4)[i - 14]) is Some);
        } else if 19 <= i < 23 {
            assert(raw[i] == head[i - 19]);
            assert(text::hex_digit(head[i - 19]) is Some);
        } else if 24 <= i < 36 {
            assert(raw[i] == tail[i - 24]);
            assert(text::hex_digit(tail[i - 24]) is Some);
        }
    }
}

/// No text but the one that is written for it is read as an identifier.
pub proof fn law_guids_have_one_text(raw: Seq<char>)
    ensures
        guid_of(raw) matches Ok(guid) ==> guid_text(guid) == raw,
{
}

/// Whether two identifiers are the same.
pub fn guid_eq(left: &Guid, right: &Guid) -> (r: bool)
    ensures
        r == (left@ == right@),
{
    let mut i: usize = 0;
    while i < 8
        invariant
            i <= 8,
            forall|k: int| 0 <= k < i ==> left.data4@[k] == right.data4@[k],
        decreases 8 - i,
    {
        if left.data4[i] != right.data4[i] {
            assert(left@.3[i as int] != right@.3[i as int]);
            return false;
        }
        i = i + 1;
    }
    assert(left.data4@ =~= right.data4@);
    left.data1 == right.data1 && left.data2 == right.data2 && left.data3 == right.data3
}

/// The part of the system's power status that tells of the battery.
#[derive(Clone, Copy, Debug)]
pub struct PowerStatus {
    pub ac_line: u8,
    pub battery_flag: u8,
    pub percent: u8,
}

/// What a power status says of the battery.
pub open spec fn power_status(status: PowerStatus) -> Result<Battery, Fault> {
    let flag = status.battery_flag;
    if flag == 255 || flag & 0x80 != 0 || status.percent > 100 {
        Err(Fault::Fail("no usable battery found"@))
    } else {
        let charging = flag & 0x08 != 0;
        Ok(plain_battery(status.percent as i32, charging, !charging && status.ac_line == 0))
    }
}

/// What a power status says of the battery.
pub fn map_power_status(status: PowerStatus) -> (r: Result<BatteryStatus, AppError>)
    ensures
        viewed(r) == power_status(status),
{
    if status.battery_flag == u8::MAX || status.battery_flag & 0x80 != 0 || status.percent > 100 {
        return Err(AppError::fail("no usable battery found"));
    }
    let charging = status.battery_flag & 0x08 != 0;
    let discharging = !charging && status.ac_line == 0;
    Ok(battery_status(status.percent as i32, charging, discharging))
}

/// The error of a power call that returned `code`.
pub fn power_error(action: &str, code: u32) -> (r: AppError)
    ensures
        r@ == Fault::Fail("could not "@ + action@ + " (error "@ + text::decimal(code as nat) + ")"@),
{
    let mut m = "could not ".to_owned();
    m.append(action);
    m.append(" (error ");
    m.append(text::decimal_text(code as u64).as_str());
    m.append(")");
    AppError::Fail(m)
}

/// What the system says of a setting that the user may not write.
pub const ACCESS_DENIED: u32 = 5;

/// What the system says of a setting that a policy overrides.
pub const DISABLED_BY_POLICY: u32 = 1260;

/// Whether the lid actions may be written, by what the system says of writing them on mains and on
/// battery. A policy binds every user, so it comes first.
pub open spec fn access_verdict(ac: u32, dc: u32) -> Result<(), Fault> {
    if ac == 0 && dc == 0 {
        Ok(())
    } else if ac == DISABLED_BY_POLICY || dc == DISABLED_BY_POLICY {
        Err(
            Fault::Fail(
                "the lid action is managed by group policy; wake cannot change it"@,
            ),
        )
    } else if ac == ACCESS_DENIED || dc == ACCESS_DENIED {
        Err(
            Fault::Fail(
                "power settings are restricted on this machine; run wake from an elevated terminal"@,
            ),
        )
    } else {
        Err(
            Fault::Fail(
                "could not check write access to the lid action (error "@ + text::decimal(
                    (if ac != 0 {
                        ac
                    } else {
                        dc
                    }) as nat,
                ) + ")"@,
            ),
        )
    }
}

/// The lid actions must be ones that may be written, on mains and on battery.
pub fn check_lid_access(ac: u32, dc: u32) -> (r: Result<(), AppError>)
    ensures
        outcome(r) == access_verdict(ac, dc),
{
    if ac == 0 && dc == 0 {
        Ok(())
    } else if ac == DISABLED_BY_POLICY || dc == DISABLED_BY_POLICY {
        Err(
            AppError::fail(
                "the lid action is managed by group policy; wake cannot change it",
            ),
        )
    } else if ac == ACCESS_DENIED || dc == ACCESS_DENIED {
        Err(
            AppError::fail(
                "power settings are restricted on this machine; run wake from an elevated terminal",
            ),
        )
    } else {
        let code: u32 = if ac != 0 {
            ac
        } else {
            dc
        };
        let mut m = "could not check write access to the lid action (error ".to_owned();
        m.append(text::decimal_text(code as u64).as_str());
        m.append(")");
        Err(AppError::Fail(m))
    }
}

/// The lid actions of a power scheme, on mains and on battery.
#[derive(Clone, Copy, Debug)]
pub struct LidSnapshot {
    pub scheme: Guid,
    pub ac: u32,
    pub dc: u32,
}

/// What becomes of one lid action when it is restored.
#[derive(Clone, Copy, Debug, PartialEq, Eq, Structural)]
pub enum RestoreField {
    Keep,
    Write,
    Conflict,
}

/// What becomes of a lid action that is `current` and was `original`: zero is the value that was
/// written over it, anything else that differs is somebody else's.
pub open spec fn field_restoration(current: u32, original: u32) -> RestoreField {
    if current == original {
        RestoreField::Keep
    } else if current == 0 {
        RestoreField::Write
    } else {
        RestoreField::Conflict
    }
}

pub fn restore_field(current: u32, original: u32) -> (r: RestoreField)
    ensures
        r == field_restoration(current, original),
{
    if current == original {
        RestoreField::Keep
    } else if current == 0 {
        RestoreField::Write
    } else {
        RestoreField::Conflict
    }
}

/// Whether a lid action has to be written back where they are `current` and were `original`.
pub open spec fn restoration_due(current: (u32, u32), original: (u32, u32)) -> bool {
    field_restoration(current.0, original.0) is Write || field_restoration(current.1, original.1)
        is Write
}

pub fn needs_restoration(current: (u32, u32), original: (u32, u32)) -> (r: bool)
    ensures
        r == restoration_due(current, original),
{
    restore_field(current.0, original.0) == RestoreField::Write || restore_field(
        current.1,
        original.1,
    ) == RestoreField::Write
}

/// Whether the scheme is to be activated again after its lid actions were restored.
pub fn should_reactivate_lid(
    wrote_any: bool,
    current: (u32, u32),
    original: (u32, u32),
    recorded_scheme_is_active: bool,
) -> (r: bool)
    ensures
        r == (recorded_scheme_is_active && (wrote_any || current == original)),
{
    recorded_scheme_is_active && (wrote_any || (current.0 == original.0 && current.1
        == original.1))
}

/// Whether the lid actions may be taken over: nothing changed since they were recorded.
pub fn validate_lid_enable_preflight(
    active: bool,
    current: (u32, u32),
    original: (u32, u32),
) -> (r: Result<(), AppError>)
    ensures
        outcome(r) == (if !active {
            Err::<(), Fault>(Fault::Fail("active power scheme changed before enable"@))
        } else if current != original {
            Err(Fault::Fail("lid values changed before enable"@))
        } else {
            Ok(())
        }),
{
    if !active {
        Err(AppError::fail("active power scheme changed before enable"))
    } else if current.0 != original.0 || current.1 != original.1 {
        Err(AppError::fail("lid values changed before enable"))
    } else {
        Ok(())
    }
}

/// Whether a lid action is still to be set to zero, or why it may not be.
pub open spec fn field_enabling(current: u32, original: u32) -> Result<bool, Fault> {
    if current == 0 {
        Ok(false)
    } else if current == original {
        Ok(true)
    } else {
        Err(Fault::Fail("lid value changed before enable"@))
    }
}

pub fn enable_field(current: u32, original: u32) -> (r: Result<bool, AppError>)
    ensures
        outcome(r) == field_enabling(current, original),
{
    if current == 0 {
        Ok(false)
    } else if current == original {
        Ok(true)
    } else {
        Err(AppError::fail("lid value changed before enable"))
    }
}

/// Whether the lid actions are still the ones that keep the machine awake.
#[derive(Clone, Copy, Debug, PartialEq, Eq, Structural)]
pub enum LidHealth {
    Healthy,
    DegradedScheme,
    DegradedValues,
}

pub fn lid_health(active_scheme_matches: bool, values: (u32, u32)) -> (r: LidHealth)
    ensures
        r == (if !active_scheme_matches {
            LidHealth::DegradedScheme
        } else if values != (0u32, 0u32) {
            LidHealth::DegradedValues
        } else {
            LidHealth::Healthy
        }),
{
    if !active_scheme_matches {
        LidHealth::DegradedScheme
    } else if values.0 != 0 || values.1 != 0 {
        LidHealth::DegradedValues
    } else {
        LidHealth::Healthy
    }
}

/// What the power interface answers.
#[derive(Clone, Copy, Debug, PartialEq, Eq, Structural)]
pub enum PowerEvent {
    /// The lid actions that were read, on mains and on battery.
    Values(u32, u32),
    /// Whether the recorded scheme is the active one.
    Active(bool),
    /// What was to be done is done.
    Done,
    /// The call failed.
    Failed,
}

/// What is asked of the power interface, always of the recorded scheme.
#[derive(Clone, Copy, Debug, PartialEq, Eq, Structural)]
pub enum PowerAction {
    ReadValues,
    WriteAc(u32),
    WriteDc(u32),
    CheckActive,
    Activate,
    Finish,
}

/// What came of restoring one lid action.
#[derive(Clone, Copy, Debug, PartialEq, Eq, Structural)]
pub enum Rail {
    Kept,
    Written,
    Refused,
    Foreign,
}

/// How a restoration ends.
#[derive(Clone, Copy, Debug, PartialEq, Eq, Structural)]
pub enum RestoreEnd {
    /// Both lid actions are the original ones.
    Restored,
    /// They are not: what they are, and what came of each.
    Unverified { ac: Rail, dc: Rail, after_ac: u32, after_dc: u32 },
    /// The call that failed last ends it.
    LastError,
}

/// How far a restoration has come.
#[derive(Clone, Copy, Debug, PartialEq, Eq, Structural)]
pub enum RestoreState {
    ReadAc,
    WriteAc,
    ReadDc { ac: Rail },
    WriteDc { ac: Rail },
    Verify { ac: Rail, dc: Rail },
    Check { ac: Rail, dc: Rail, after_ac: u32, after_dc: u32 },
    Recheck { ac: Rail, dc: Rail, after_ac: u32, after_dc: u32 },
    Activate { ac: Rail, dc: Rail, after_ac: u32, after_dc: u32 },
    Ended(RestoreEnd),
}

/// How a restoration ends that found these values last.
pub open spec fn restore_verdict(
    original: (u32, u32),
    ac: Rail,
    dc: Rail,
    after_ac: u32,
    after_dc: u32,
) -> RestoreEnd {
    if after_ac == original.0 && after_dc == original.1 {
        RestoreEnd::Restored
    } else {
        RestoreEnd::Unverified { ac, dc, after_ac, after_dc }
    }
}

/// What a restoration asks for next.
pub open spec fn restoration_action(original: (u32, u32), state: RestoreState) -> PowerAction {
    match state {
        RestoreState::ReadAc => PowerAction::ReadValues,
        RestoreState::WriteAc => PowerAction::WriteAc(original.0),
        RestoreState::ReadDc { .. } => PowerAction::ReadValues,
        RestoreState::WriteDc { .. } => PowerAction::WriteDc(original.1),
        RestoreState::Verify { .. } => PowerAction::ReadValues,
        RestoreState::Check { .. } => PowerAction::CheckActive,
        RestoreState::Recheck { .. } => PowerAction::CheckActive,
        RestoreState::Activate { .. } => PowerAction::Activate,
        RestoreState::Ended(_) => PowerAction::Finish,
    }
}

/// Where a restoration goes from `state` on `event`. Each lid action is read, written back if it is
/// zero, and read again with the other; the scheme is activated again if it is the active one
/// and anything was written or all is as it was. A failed write is remembered, any other failure ends
/// the restoration. An event that nobody waits for changes nothing.
pub open spec fn restoration(
    original: (u32, u32),
    state: RestoreState,
    event: PowerEvent,
) -> RestoreState {
    match (state, event) {
        (RestoreState::Ended(_), _) => state,
        (RestoreState::ReadAc, PowerEvent::Values(ac, _)) => match field_restoration(
            ac,
            original.0,
        ) {
            RestoreField::Keep => RestoreState::ReadDc { ac: Rail::Kept },
            RestoreField::Write => RestoreState::WriteAc,
            RestoreField::Conflict => RestoreState::ReadDc { ac: Rail::Foreign },
        },
        (RestoreState::WriteAc, PowerEvent::Done) => RestoreState::ReadDc { ac: Rail::Written },
        (RestoreState::WriteAc, PowerEvent::Failed) => RestoreState::ReadDc { ac: Rail::Refused },
        (RestoreState::ReadDc { ac }, PowerEvent::Values(_, dc)) => match field_restoration(
            dc,
            original.1,
        ) {
            RestoreField::Keep => RestoreState::Verify { ac, dc: Rail::Kept },
            RestoreField::Write => RestoreState::WriteDc { ac },
            RestoreField::Conflict => RestoreState::Verify { ac, dc: Rail::Foreign },
        },
        (RestoreState::WriteDc { ac }, PowerEvent::Done) => RestoreState::Verify {
            ac,
            dc: Rail::Written,
        },
        (RestoreState::WriteDc { ac }, PowerEvent::Failed) => RestoreState::Verify {
            ac,
            dc: Rail::Refused,
        },
        (RestoreState::Verify { ac, dc }, PowerEvent::Values(after_ac, after_dc)) => {
            RestoreState::Check { ac, dc, after_ac, after_dc }
        },
        (RestoreState::Check { ac, dc, after_ac, after_dc }, PowerEvent::Active(active)) => {
            let wrote_any = ac == Rail::Written || dc == Rail::Written;
            if active && (wrote_any || (after_ac, after_dc) == original) {
                RestoreState::Recheck { ac, dc, after_ac, after_dc }
            } else {
                RestoreState::Ended(restore_verdict(original, ac, dc, after_ac, after_dc))
            }
        },
        (RestoreState::Recheck { ac, dc, after_ac, after_dc }, PowerEvent::Active(active)) => {
            if active {
                RestoreState::Activate { ac, dc, after_ac, after_dc }
            } else {
                RestoreState::Ended(restore_verdict(original, ac, dc, after_ac, after_dc))
            }
        },
        (RestoreState::Activate { ac, dc, after_ac, after_dc }, PowerEvent::Done) => {
            RestoreState::Ended(restore_verdict(original, ac, dc, after_ac, after_dc))
        },
        (_, PowerEvent::Failed) => RestoreState::Ended(RestoreEnd::LastError),
        _ => state,
    }
}

/// A restoration writes a lid action only where it has just found that one has to be written back.
pub proof fn law_restoration_writes_what_is_due(
    original: (u32, u32),
    state: RestoreState,
    event: PowerEvent,
)
    ensures
        ({
            let wants = restoration_action(original, restoration(original, state, event));
            (wants is WriteAc || wants is WriteDc) && restoration(original, state, event) != state
                ==> (event matches PowerEvent::Values(ac, dc) && restoration_due(
                (ac, dc),
                original,
            ))
        }),
{
}

/// What a restoration asks for next.
pub fn restore_action(original: (u32, u32), state: RestoreState) -> (r: PowerAction)
    ensures
        r == restoration_action(original, state),
{
    match state {
        RestoreState::ReadAc => PowerAction::ReadValues,
        RestoreState::WriteAc => PowerAction::WriteAc(original.0),
        RestoreState::ReadDc { .. } => PowerAction::ReadValues,
        RestoreState::WriteDc { .. } => PowerAction::WriteDc(original.1),
        RestoreState::Verify { .. } => PowerAction::ReadValues,
        RestoreState::Check { .. } => PowerAction::CheckActive,
        RestoreState::Recheck { .. } => PowerAction::CheckActive,
        RestoreState::Activate { .. } => PowerAction::Activate,
        RestoreState::Ended(_) => PowerAction::Finish,
    }
}

fn restore_end(original: (u32, u32), ac: Rail, dc: Rail, after_ac: u32, after_dc: u32) -> (r:
    RestoreState)
    ensures
        r == RestoreState::Ended(restore_verdict(original, ac, dc, after_ac, after_dc)),
{
    if after_ac == original.0 && after_dc == original.1 {
        RestoreState::Ended(RestoreEnd::Restored)
    } else {
        RestoreState::Ended(RestoreEnd::Unverified { ac, dc, after_ac, after_dc })
    }
}

/// Where a restoration of the lid actions goes from `state` on `event`.
pub fn restore_lid_snapshot(original: (u32, u32), state: RestoreState, event: PowerEvent) -> (r:
    RestoreState)
    ensures
        r == restoration(original, state, event),
{
    match (state, event) {
        (RestoreState::Ended(_), _) => state,
        (RestoreState::ReadAc, PowerEvent::Values(ac, _)) => match restore_field(ac, original.0) {
            RestoreField::Keep => RestoreState::ReadDc { ac: Rail::Kept },
            RestoreField::Write => RestoreState::WriteAc,
            RestoreField::Conflict => RestoreState::ReadDc { ac: Rail::Foreign },
        },
        (RestoreState::WriteAc, PowerEvent::Done) => RestoreState::ReadDc { ac: Rail::Written },
        (RestoreState::WriteAc, PowerEvent::Failed) => RestoreState::ReadDc { ac: Rail::Refused },
        (RestoreState::ReadDc { ac }, PowerEvent::Values(_, dc)) => match restore_field(
            dc,
            original.1,
        ) {
            RestoreField::Keep => RestoreState::Verify { ac, dc: Rail::Kept },
            RestoreField::Write => RestoreState::WriteDc { ac },
            RestoreField::Conflict => RestoreState::Verify { ac, dc: Rail::Foreign },
        },
        (RestoreState::WriteDc { ac }, PowerEvent::Done) => RestoreState::Verify {
            ac,
            dc: Rail::Written,
        },
        (RestoreState::WriteDc { ac }, PowerEvent::Failed) => RestoreState::Verify {
            ac,
            dc: Rail::Refused,
        },
        (RestoreState::Verify { ac, dc }, PowerEvent::Values(after_ac, after_dc)) => {
            RestoreState::Check { ac, dc, after_ac, after_dc }
        },
        (RestoreState::Check { ac, dc, after_ac, after_dc }, PowerEvent::Active(active)) => {
            let wrote_any = ac == Rail::Written || dc == Rail::Written;
            if should_reactivate_lid(wrote_any, (after_ac, after_dc), original, active) {
                RestoreState::Recheck { ac, dc, after_ac, after_dc }
            } else {
                restore_end(original, ac, dc, after_ac, after_dc)
            }
        },
        (RestoreState::Recheck { ac, dc, after_ac, after_dc }, PowerEvent::Active(active)) => {
            if active {
                RestoreState::Activate { ac, dc, after_ac, after_dc }
            } else {
                restore_end(original, ac, dc, after_ac, after_dc)
            }
        },
        (RestoreState::Activate { ac, dc, after_ac, after_dc }, PowerEvent::Done) => {
            restore_end(original, ac, dc, after_ac, after_dc)
        },
        (_, PowerEvent::Failed) => RestoreState::Ended(RestoreEnd::LastError),
        _ => state,
    }
}

/// What a rail adds to the message of a failed restoration; `error` is what its write failed with.
pub open spec fn rail_issue(name: Seq<char>, rail: Rail, error: Seq<char>) -> Seq<Seq<char>> {
    match rail {
        Rail::Refused => seq![name + " write failed: "@ + error],
        Rail::Foreign => seq![name + " has a third-party value"@],
        _ => Seq::empty(),
    }
}

/// The message of a restoration that did not verify.
pub open spec fn restore_message(
    original: (u32, u32),
    after: (u32, u32),
    issues: Seq<Seq<char>>,
) -> Seq<char> {
    "lid restoration did not verify (current AC="@ + text::decimal(after.0 as nat) + " DC="@
        + text::decimal(after.1 as nat) + ", expected AC="@ + text::decimal(original.0 as nat)
        + " DC="@ + text::decimal(original.1 as nat) + ")"@ + if issues.len() == 0 {
        Seq::empty()
    } else {
        "; "@ + text::joined(issues, "; "@)
    }
}

fn push_issue(issues: &mut Vec<String>, name: &str, rail: Rail, error: &str)
    ensures
        text::texts(final(issues)@) == text::texts(old(issues)@) + rail_issue(name@, rail, error@),
{
    let ghost before = text::texts(issues@);
    match rail {
        Rail::Refused => {
            let mut m = name.to_owned();
            m.append(" write failed: ");
            m.append(error);
            issues.push(m);
        },
        Rail::Foreign => {
            let mut m = name.to_owned();
            m.append(" has a third-party value");
            issues.push(m);
        },
        _ => {},
    }
    assert(text::texts(issues@) =~= before + rail_issue(name@, rail, error@));
}

/// The error of a restoration that did not verify. The two texts are what the writes failed with,
/// where they failed.
pub fn restore_failure(
    original: (u32, u32),
    after: (u32, u32),
    ac: Rail,
    ac_error: &str,
    dc: Rail,
    dc_error: &str,
) -> (r: AppError)
    ensures
        r@ == Fault::Fail(
            restore_message(
                original,
                after,
                rail_issue("AC"@, ac, ac_error@) + rail_issue("DC"@, dc, dc_error@),
            ),
        ),
{
    let mut issues: Vec<String> = Vec::new();
    assert(text::texts(issues@) =~= Seq::<Seq<char>>::empty());
    push_issue(&mut issues, "AC", ac, ac_error);
    assert(text::texts(issues@) =~= rail_issue("AC"@, ac, ac_error@));
    push_issue(&mut issues, "DC", dc, dc_error);
    let mut m = "lid restoration did not verify (current AC=".to_owned();
    m.append(text::decimal_text(after.0 as u64).as_str());
    m.append(" DC=");
    m.append(text::decimal_text(after.1 as u64).as_str());
    m.append(", expected AC=");
    m.append(text::decimal_text(original.0 as u64).as_str());
    m.append(" DC=");
    m.append(text::decimal_text(original.1 as u64).as_str());
    m.append(")");
    let ghost head = m@;
    if issues.len() > 0 {
        m.append("; ");
        m.append(text::join(&issues, "; ").as_str());
        assert(m@ =~= head + ("; "@ + text::joined(text::texts(issues@), "; "@)));
    } else {
        assert(m@ =~= head + Seq::<char>::empty());
    }
    AppError::Fail(m)
}

/// A restoration writes nothing but the original values, each only after it was read as zero: what
/// somebody else wrote is never overwritten.
pub proof fn law_restoration_keeps_foreign_values(
    original: (u32, u32),
    state: RestoreState,
    event: PowerEvent,
)
    ensures
        restoration_action(original, state) matches PowerAction::WriteAc(v) ==> v == original.0,
        restoration_action(original, state) matches PowerAction::WriteDc(v) ==> v == original.1,
        restoration(original, state, event) is WriteAc && state !is WriteAc ==> (event matches
            PowerEvent::Values(ac, _) && ac == 0 && original.0 != 0),
        restoration(original, state, event) is WriteDc && state !is WriteDc ==> (event matches
            PowerEvent::Values(_, dc) && dc == 0 && original.1 != 0),
{
}

/// A power interface on which no call fails and nobody else interferes.
pub struct QuietPower {
    pub ac: u32,
    pub dc: u32,
    pub active: bool,
}

impl QuietPower {
    /// The interface after `action`, and its answer.
    pub open spec fn answer(self, action: PowerAction) -> (QuietPower, PowerEvent) {
        match action {
            PowerAction::ReadValues => (self, PowerEvent::Values(self.ac, self.dc)),
            PowerAction::WriteAc(v) => (QuietPower { ac: v, ..self }, PowerEvent::Done),
            PowerAction::WriteDc(v) => (QuietPower { dc: v, ..self }, PowerEvent::Done),
            PowerAction::CheckActive => (self, PowerEvent::Active(self.active)),
            _ => (self, PowerEvent::Done),
        }
    }
}

/// Where a restoration stands after so many steps, and the interface with it.
pub open spec fn restoration_run(
    original: (u32, u32),
    state: RestoreState,
    power: QuietPower,
    steps: nat,
) -> (RestoreState, QuietPower)
    decreases steps,
{
    if steps == 0 {
        (state, power)
    } else {
        let (power, event) = power.answer(restoration_action(original, state));
        restoration_run(
            original,
            restoration(original, state, event),
            power,
            (steps - 1) as nat,
        )
    }
}

/// Where nobody interferes, eight steps end a restoration. Each lid action that was zero or the
/// original one is the original one then, each other is what it was, and the restoration is
/// reported as verified exactly if both are the original ones.
pub proof fn law_restoration_restores(original: (u32, u32), power: QuietPower)
    ensures
        ({
            let (state, after) = restoration_run(original, RestoreState::ReadAc, power, 8);
            &&& state is Ended
            &&& after.ac == if power.ac == 0 {
                original.0
            } else {
                power.ac
            }
            &&& after.dc == if power.dc == 0 {
                original.1
            } else {
                power.dc
            }
            &&& state == RestoreState::Ended(RestoreEnd::Restored) <==> (after.ac, after.dc)
                == original
        }),
{
    reveal_with_fuel(restoration_run, 9);
}

/// Why the lid actions could not be taken over.
#[derive(Clone, Copy, Debug, PartialEq, Eq, Structural)]
pub enum EnableFault {
    SchemeChangedBefore,
    ValueChangedBefore,
    SchemeChangedDuring,
    AcNotKept,
    Unverified,
    /// The call that failed last says why.
    LastError,
}

impl EnableFault {
    /// What is said of the fault; nothing where a failed call says it.
    pub open spec fn text(self) -> Seq<char> {
        match self {
            EnableFault::SchemeChangedBefore => "active power scheme changed before enable"@,
            EnableFault::ValueChangedBefore => "lid value changed before enable"@,
            EnableFault::SchemeChangedDuring => "active power scheme changed during enable"@,
            EnableFault::AcNotKept => "AC lid value did not remain at wake's value"@,
            EnableFault::Unverified => "lid override did not verify before readiness"@,
            EnableFault::LastError => ""@,
        }
    }

    pub fn message(self) -> (r: &'static str)
        ensures
            r@ == self.text(),
    {
        match self {
            EnableFault::SchemeChangedBefore => "active power scheme changed before enable",
            EnableFault::ValueChangedBefore => "lid value changed before enable",
            EnableFault::SchemeChangedDuring => "active power scheme changed during enable",
            EnableFault::AcNotKept => "AC lid value did not remain at wake's value",
            EnableFault::Unverified => "lid override did not verify before readiness",
            EnableFault::LastError => "",
        }
    }
}

/// How far taking over the lid actions has come. Where it was given up, they are to be restored.
#[derive(Clone, Copy, Debug, PartialEq, Eq, Structural)]
pub enum EnableState {
    Check,
    Inspect,
    ClearAc,
    CheckAgain,
    InspectAgain,
    ClearDc,
    CheckForActivation,
    Activate,
    CheckLast,
    InspectLast,
    Enabled,
    RollBack(EnableFault),
}

/// What taking over the lid actions asks for next.
pub open spec fn enabling_action(state: EnableState) -> PowerAction {
    match state {
        EnableState::Check => PowerAction::CheckActive,
        EnableState::Inspect => PowerAction::ReadValues,
        EnableState::ClearAc => PowerAction::WriteAc(0),
        EnableState::CheckAgain => PowerAction::CheckActive,
        EnableState::InspectAgain => PowerAction::ReadValues,
        EnableState::ClearDc => PowerAction::WriteDc(0),
        EnableState::CheckForActivation => PowerAction::CheckActive,
        EnableState::Activate => PowerAction::Activate,
        EnableState::CheckLast => PowerAction::CheckActive,
        EnableState::InspectLast => PowerAction::ReadValues,
        EnableState::Enabled => PowerAction::Finish,
        EnableState::RollBack(_) => PowerAction::Finish,
    }
}

/// Where taking over the lid actions goes from `state` on `event`. Both must be zero or the
/// original ones before the first is set to zero; they are read again before the second is,
/// the scheme is activated again, and in the end both must read as zero on the active scheme.
pub open spec fn enabling(original: (u32, u32), state: EnableState, event: PowerEvent) -> EnableState {
    match (state, event) {
        (EnableState::Enabled, _) => state,
        (EnableState::RollBack(_), _) => state,
        (_, PowerEvent::Failed) => EnableState::RollBack(EnableFault::LastError),
        (EnableState::Check, PowerEvent::Active(active)) => if active {
            EnableState::Inspect
        } else {
            EnableState::RollBack(EnableFault::SchemeChangedBefore)
        },
        (EnableState::Inspect, PowerEvent::Values(ac, dc)) => {
            if field_enabling(ac, original.0) is Err || field_enabling(dc, original.1) is Err {
                EnableState::RollBack(EnableFault::ValueChangedBefore)
            } else if ac != 0 {
                EnableState::ClearAc
            } else {
                EnableState::CheckAgain
            }
        },
        (EnableState::ClearAc, PowerEvent::Done) => EnableState::CheckAgain,
        (EnableState::CheckAgain, PowerEvent::Active(active)) => if active {
            EnableState::InspectAgain
        } else {
            EnableState::RollBack(EnableFault::SchemeChangedDuring)
        },
        (EnableState::InspectAgain, PowerEvent::Values(ac, dc)) => {
            if ac != 0 {
                EnableState::RollBack(EnableFault::AcNotKept)
            } else if field_enabling(dc, original.1) is Err {
                EnableState::RollBack(EnableFault::ValueChangedBefore)
            } else if dc != 0 {
                EnableState::ClearDc
            } else {
                EnableState::CheckForActivation
            }
        },
        (EnableState::ClearDc, PowerEvent::Done) => EnableState::CheckForActivation,
        (EnableState::CheckForActivation, PowerEvent::Active(active)) => if active {
            EnableState::Activate
        } else {
            EnableState::CheckLast
        },
        (EnableState::Activate, PowerEvent::Done) => EnableState::CheckLast,
        (EnableState::CheckLast, PowerEvent::Active(active)) => if active {
            EnableState::InspectLast
        } else {
            EnableState::RollBack(EnableFault::Unverified)
        },
        (EnableState::InspectLast, PowerEvent::Values(ac, dc)) => if ac == 0 && dc == 0 {
            EnableState::Enabled
        } else {
            EnableState::RollBack(EnableFault::Unverified)
        },
        _ => state,
    }
}

/// What taking over the lid actions asks for next.
pub fn enable_action(state: EnableState) -> (r: PowerAction)
    ensures
        r == enabling_action(state),
{
    match state {
        EnableState::Check => PowerAction::CheckActive,
        EnableState::Inspect => PowerAction::ReadValues,
        EnableState::ClearAc => PowerAction::WriteAc(0),
        EnableState::CheckAgain => PowerAction::CheckActive,
        EnableState::InspectAgain => PowerAction::ReadValues,
        EnableState::ClearDc => PowerAction::WriteDc(0),
        EnableState::CheckForActivation => PowerAction::CheckActive,
        EnableState::Activate => PowerAction::Activate,
        EnableState::CheckLast => PowerAction::CheckActive,
        EnableState::InspectLast => PowerAction::ReadValues,
        EnableState::Enabled => PowerAction::Finish,
        EnableState::RollBack(_) => PowerAction::Finish,
    }
}

/// Where taking over the lid actions goes from `state` on `event`.
pub fn enable_lid(original: (u32, u32), state: EnableState, event: PowerEvent) -> (r: EnableState)
    ensures
        r == enabling(original, state, event),
{
    match (state, event) {
        (EnableState::Enabled, _) => state,
        (EnableState::RollBack(_), _) => state,
        (_, PowerEvent::Failed) => EnableState::RollBack(EnableFault::LastError),
        (EnableState::Check, PowerEvent::Active(active)) => if active {
            EnableState::Inspect
        } else {
            EnableState::RollBack(EnableFault::SchemeChangedBefore)
        },
        (EnableState::Inspect, PowerEvent::Values(ac, dc)) => {
            match (enable_field(ac, original.0), enable_field(dc, original.1)) {
                (Ok(true), Ok(_)) => EnableState::ClearAc,
                (Ok(false), Ok(_)) => EnableState::CheckAgain,
                _ => EnableState::RollBack(EnableFault::ValueChangedBefore),
            }
        },
        (EnableState::ClearAc, PowerEvent::Done) => EnableState::CheckAgain,
        (EnableState::CheckAgain, PowerEvent::Active(active)) => if active {
            EnableState::InspectAgain
        } else {
            EnableState::RollBack(EnableFault::SchemeChangedDuring)
        },
        (EnableState::InspectAgain, PowerEvent::Values(ac, dc)) => {
            if ac != 0 {
                return EnableState::RollBack(EnableFault::AcNotKept);
            }
            match enable_field(dc, original.1) {
                Ok(true) => EnableState::ClearDc,
                Ok(false) => EnableState::CheckForActivation,
                Err(_) => EnableState::RollBack(EnableFault::ValueChangedBefore),
            }
        },
        (EnableState::ClearDc, PowerEvent::Done) => EnableState::CheckForActivation,
        (EnableState::CheckForActivation, PowerEvent::Active(active)) => if active {
            EnableState::Activate
        } else {
            EnableState::CheckLast
        },
        (EnableState::Activate, PowerEvent::Done) => EnableState::CheckLast,
        (EnableState::CheckLast, PowerEvent::Active(active)) => if active {
            EnableState::InspectLast
        } else {
            EnableState::RollBack(EnableFault::Unverified)
        },
        (EnableState::InspectLast, PowerEvent::Values(ac, dc)) => if ac == 0 && dc == 0 {
            EnableState::Enabled
        } else {
            EnableState::RollBack(EnableFault::Unverified)
        },
        _ => state,
    }
}

/// The error of lid actions that could not be taken over, once they were restored.
pub fn enable_failure(error: AppError, rollback: Result<(), AppError>) -> (r: AppError)
    ensures
        r@ == (match outcome(rollback) {
            Ok(()) => error@,
            Err(second) => chained(error@, "; rollback failed: "@, second),
        }),
{
    match rollback {
        Ok(()) => error,
        Err(second) => chain(&error, "; rollback failed: ", &second),
    }
}

/// Where taking over the lid actions stands after so many steps, and the interface with it.
pub open spec fn enabling_run(
    original: (u32, u32),
    state: EnableState,
    power: QuietPower,
    steps: nat,
) -> (EnableState, QuietPower)
    decreases steps,
{
    if steps == 0 {
        (state, power)
    } else {
        let (power, event) = power.answer(enabling_action(state));
        enabling_run(original, enabling(original, state, event), power, (steps - 1) as nat)
    }
}

/// Where nobody interferes, ten steps take over lid actions that are zero or the original
/// ones, and both are zero then. On another scheme, or with another value in place,
/// nothing is written.
pub proof fn law_enabling_takes_over(original: (u32, u32), power: QuietPower)
    ensures
        ({
            let (state, after) = enabling_run(original, EnableState::Check, power, 10);
            let free = power.active && (power.ac == 0 || power.ac == original.0) && (power.dc == 0
                || power.dc == original.1);
            &&& state == EnableState::Enabled <==> free
            &&& free ==> after == QuietPower { ac: 0, dc: 0, active: true }
            &&& !free ==> state is RollBack && after == power
        }),
{
    let unfold = |s: EnableState, p: QuietPower, n: nat|
        enabling_run(original, s, p, n) == if n == 0 {
            (s, p)
        } else {
            let (q, e) = p.answer(enabling_action(s));
            enabling_run(original, enabling(original, s, e), q, (n - 1) as nat)
        };
    let free = power.active && (power.ac == 0 || power.ac == original.0) && (power.dc == 0
        || power.dc == original.1);
    let cleared = QuietPower { ac: 0, ..power };
    let done = QuietPower { ac: 0, dc: 0, ..power };
    assert(unfold(EnableState::Check, power, 10));
    if !power.active {
        lemma_enabling_stays(
            original,
            EnableState::RollBack(EnableFault::SchemeChangedBefore),
            power,
            9,
        );
    } else if !free {
        assert(unfold(EnableState::Inspect, power, 9));
        lemma_enabling_stays(
            original,
            EnableState::RollBack(EnableFault::ValueChangedBefore),
            power,
            8,
        );
    } else {
        assert(unfold(EnableState::Inspect, power, 9));
        let left: nat = if power.ac != 0 {
            assert(unfold(EnableState::ClearAc, power, 8));
            7
        } else {
            assert(power == cleared);
            8
        };
        assert(unfold(EnableState::CheckAgain, cleared, left));
        assert(unfold(EnableState::InspectAgain, cleared, (left - 1) as nat));
        let rest: nat = if power.dc != 0 {
            assert(unfold(EnableState::ClearDc, cleared, (left - 2) as nat));
            (left - 3) as nat
        } else {
            assert(cleared == done);
            (left - 2) as nat
        };
        assert(unfold(EnableState::CheckForActivation, done, rest));
        assert(unfold(EnableState::Activate, done, (rest - 1) as nat));
        assert(unfold(EnableState::CheckLast, done, (rest - 2) as nat));
        assert(unfold(EnableState::InspectLast, done, (rest - 3) as nat));
        lemma_enabling_stays(original, EnableState::Enabled, done, (rest - 4) as nat);
    }
}

/// Once it has ended, taking over the lid actions asks for nothing more.
proof fn lemma_enabling_stays(
    original: (u32, u32),
    state: EnableState,
    power: QuietPower,
    steps: nat,
)
    requires
        state is Enabled || state is RollBack,
    ensures
        enabling_run(original, state, power, steps) == (state, power),
    decreases steps,
{
    if steps > 0 {
        lemma_enabling_stays(original, state, power, (steps - 1) as nat);
    }
}

/// The lid actions count as taken over only right after both were read as zero.
pub proof fn law_enabling_is_verified(original: (u32, u32), state: EnableState, event: PowerEvent)
    ensures
        enabling(original, state, event) is Enabled && state !is Enabled ==> state is InspectLast
            && event == PowerEvent::Values(0, 0),
{
}

/// Taking over the lid actions and restoring them afterwards, where nobody interferes, leaves the
/// original ones in place.
pub proof fn law_restoration_undoes_enabling(original: (u32, u32), power: QuietPower)
    requires
        power.active,
        (power.ac, power.dc) == original,
    ensures
        ({
            let (_, taken) = enabling_run(original, EnableState::Check, power, 10);
            restoration_run(original, RestoreState::ReadAc, taken, 8) == (
                RestoreState::Ended(RestoreEnd::Restored),
                power,
            )
        }),
{
    law_enabling_takes_over(original, power);
    let (_, taken) = enabling_run(original, EnableState::Check, power, 10);
    law_restoration_restores(original, taken);
    reveal_with_fuel(restoration_run, 9);
}

/// A battery counts where the system knows of one and of its charge; it charges where the system says so, and
/// discharges where it does not charge and no mains are there.
pub proof fn law_power_statuses_tell_of_batteries(status: PowerStatus)
    ensures
        ({
            let r = power_status(status);
            let flag = status.battery_flag;
            &&& r is Ok <==> flag < 128 && status.percent <= 100
            &&& r matches Ok(b) ==> b.percent == status.percent && (b.charging <==> flag % 16 >= 8) && (
            b.discharging <==> !b.charging && status.ac_line == 0)
        }),
{
    let flag = status.battery_flag;
    assert(flag & 0x80 != 0 <==> flag >= 128) by (bit_vector);
    assert(flag & 0x08 != 0 <==> flag % 16 >= 8) by (bit_vector);
}

/// Lid actions may be written exactly where the system allows both; a policy is told of before anything else, and
/// a lack of rights before other errors.
pub proof fn law_access_is_needed_for_both(ac: u32, dc: u32)
    ensures
        access_verdict(ac, dc) is Ok <==> ac == 0 && dc == 0,
        ac == 1260 || dc == 1260 ==> access_verdict(ac, dc) == Err::<(), Fault>(
            Fault::Fail("the lid action is managed by group policy; wake cannot change it"@),
        ),
        (ac == 5 || dc == 5) && ac != 1260 && dc != 1260 ==> access_verdict(ac, dc) == Err::<
            (),
            Fault,
        >(
            Fault::Fail(
                "power settings are restricted on this machine; run wake from an elevated terminal"@,
            ),
        ),
{
}

/// A lid action is written back only over the nought that was written over it, and never over what somebody else
/// wrote; and it is taken over only where it is still what was recorded.
pub proof fn law_lid_actions_of_others_stay(current: (u32, u32), original: (u32, u32))
    ensures
        field_restoration(current.0, original.0) is Write <==> current.0 == 0 && original.0 != 0,
        field_restoration(current.0, original.0) is Keep <==> current.0 == original.0,
        field_restoration(current.0, original.0) is Conflict <==> current.0 != original.0
            && current.0 != 0,
        restoration_due(current, original) <==> (current.0 == 0 && original.0 != 0) || (current.1
            == 0 && original.1 != 0),
        field_enabling(current.0, original.0) == Ok::<bool, Fault>(true) <==> current.0
            == original.0 && current.0 != 0,
        field_enabling(current.0, original.0) == Ok::<bool, Fault>(false) <==> current.0 == 0,
{
}

/// The lid is healthy exactly where the recorded scheme is active and both actions are nought; it may be taken
/// over exactly where the scheme is active and both are what was recorded; and the scheme is activated
/// again only where it is the active one.
pub proof fn law_lids_are_healthy_or_not(
    active: bool,
    values: (u32, u32),
    original: (u32, u32),
    wrote: bool,
    found: LidHealth,
    preflight: Result<(), AppError>,
    again: bool,
)
    requires
        call_ensures(lid_health, (active, values), found),
        call_ensures(validate_lid_enable_preflight, (active, values, original), preflight),
        call_ensures(should_reactivate_lid, (wrote, values, original, active), again),
    ensures
        found == LidHealth::Healthy <==> active && values.0 == 0 && values.1 == 0,
        found == LidHealth::DegradedScheme <==> !active,
        preflight is Ok <==> active && values.0 == original.0 && values.1 == original.1,
        again ==> active,
        active && wrote ==> again,
        active && !wrote ==> (again <==> values.0 == original.0 && values.1 == original.1),
{
}

/// An identifier is written in five groups of hexadecimal digits with dashes between them, its parts in order.
pub proof fn law_guids_are_written_in_groups(guid: (u32, u16, u16, Seq<u8>))
    requires
        guid.3.len() == 8,
    ensures
        ({
            let s = guid_text(guid);
            &&& s.len() == 36
            &&& s[8] == '-' && s[13] == '-' && s[18] == '-' && s[23] == '-'
            &&& s.take(8) == text::hex(guid.0 as nat, 8)
            &&& s.subrange(9, 13) == text::hex(guid.1 as nat, 4)
            &&& s.subrange(14, 18) == text::hex(guid.2 as nat, 4)
            &&& s.subrange(19, 21) == text::hex(guid.3[0] as nat, 2)
            &&& s.subrange(24, 26) == text::hex(guid.3[2] as nat, 2)
            &&& s.subrange(34, 36) == text::hex(guid.3[7] as nat, 2)
        }),
{
    let s = guid_text(guid);
    reveal_with_fuel(text::hex_range, 9);
    text::lemma_hex(guid.0 as nat, 8);
    text::lemma_hex(guid.1 as nat, 4);
    text::lemma_hex(guid.2 as nat, 4);
    let a = guid.3.take(2);
    let b = guid.3.skip(2);
    lemma_hex_bytes_are(a);
    lemma_hex_bytes_are(b);
    assert(a[0] == guid.3[0] && b[0] == guid.3[2] && b[5] == guid.3[7]);
    assert(hex_bytes(a).subrange(0, 2) == text::hex(guid.3[0] as nat, 2));
    assert(hex_bytes(b).subrange(0, 2) == text::hex(guid.3[2] as nat, 2));
    assert(hex_bytes(b).subrange(10, 12) == text::hex(guid.3[7] as nat, 2));
    assert(s.take(8) =~= text::hex(guid.0 as nat, 8));
    assert(s.subrange(9, 13) =~= text::hex(guid.1 as nat, 4));
    assert(s.subrange(14, 18) =~= text::hex(guid.2 as nat, 4));
    assert(s.subrange(19, 21) =~= hex_bytes(a).subrange(0, 2));
    assert(s.subrange(24, 26) =~= hex_bytes(b).subrange(0, 2));
    assert(s.subrange(34, 36) =~= hex_bytes(b).subrange(10, 12));
}

proof fn lemma_hex_bytes_are(bytes: Seq<u8>)
    ensures
        hex_bytes(bytes).len() == 2 * bytes.len(),
        forall|i: int|
            0 <= i < bytes.len() ==> hex_bytes(bytes).subrange(2 * i, 2 * i + 2) == text::hex(
                #[trigger] bytes[i] as nat,
                2,
            ),
    decreases bytes.len(),
{
    if bytes.len() > 0 {
        let front = bytes.drop_last();
        lemma_hex_bytes_are(front);
        reveal_with_fuel(text::hex_range, 3);
        text::lemma_hex(bytes.last() as nat, 2);
        let all = hex_bytes(bytes);
        assert forall|i: int| 0 <= i < bytes.len() implies all.subrange(2 * i, 2 * i + 2)
            == text::hex(#[trigger] bytes[i] as nat, 2) by {
            if i < front.len() {
                assert(front[i] == bytes[i]);
                assert(all.subrange(2 * i, 2 * i + 2) =~= hex_bytes(front).subrange(
                    2 * i,
                    2 * i + 2,
                ));
            } else {
                assert(all.subrange(2 * i, 2 * i + 2) =~= text::hex(bytes.last() as nat, 2));
            }
        }
    }
}

/// What failed on a rail is told under the rail's name, and nothing is told of a rail on which nothing failed.
pub proof fn law_failed_rails_are_told(name: Seq<char>, rail: Rail, error: Seq<char>)
    ensures
        ({
            let told = rail_issue(name, rail, error);
            &&& rail == Rail::Kept || rail == Rail::Written ==> told.len() == 0
            &&& rail == Rail::Refused || rail == Rail::Foreign ==> told.len() == 1
                && told[0].take(name.len() as int) == name
            &&& rail == Rail::Refused ==> told[0].skip(told[0].len() - error.len()) == error
            &&& rail == Rail::Foreign ==> told == rail_issue(name, rail, seq![])
        }),
{
    let told = rail_issue(name, rail, error);
    if rail == Rail::Refused || rail == Rail::Foreign {
        assert(told[0].take(name.len() as int) =~= name);
    }
    if rail == Rail::Refused {
        assert(told[0].skip(told[0].len() - error.len()) =~= error);
    }
}

/// The message of a restoration that did not verify tells first what was found and then what was to be put back,
/// and adds each issue at its end.
pub proof fn law_failed_restorations_are_told(
    original: (u32, u32),
    after: (u32, u32),
    issues: Seq<Seq<char>>,
    issue: Seq<char>,
)
    ensures
        ({
            let found = "lid restoration did not verify (current AC="@ + text::decimal(
                after.0 as nat,
            ) + " DC="@ + text::decimal(after.1 as nat);
            let owed = ", expected AC="@ + text::decimal(original.0 as nat) + " DC="@
                + text::decimal(original.1 as nat) + ")"@;
            &&& restore_message(original, after, Seq::empty()) == found + owed
            &&& restore_message(original, after, issues.push(issue)) == restore_message(
                original,
                after,
                issues,
            ) + "; "@ + issue
        }),
{
    let found = "lid restoration did not verify (current AC="@ + text::decimal(after.0 as nat)
        + " DC="@ + text::decimal(after.1 as nat);
    let owed = ", expected AC="@ + text::decimal(original.0 as nat) + " DC="@ + text::decimal(
        original.1 as nat,
    ) + ")"@;
    let bare = restore_message(original, after, Seq::empty());
    assert(bare =~= found + owed);
    text::law_joining_adds_up(issues, issue, "; "@);
    let more = restore_message(original, after, issues.push(issue));
    let less = restore_message(original, after, issues);
    if issues.len() == 0 {
        assert(less =~= bare);
        assert(more =~= bare + ("; "@ + issue));
    } else {
        assert(less =~= bare + ("; "@ + text::joined(issues, "; "@)));
        assert(more =~= bare + ("; "@ + text::joined(issues.push(issue), "; "@)));
    }
    assert(more =~= less + "; "@ + issue);
}

} // verus!
