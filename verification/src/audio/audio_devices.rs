use vstd::prelude::*;
use crate::util::text::{
    all_ascii_digits, chars_of, digits_to_usize, digits_value, is_white_space,
    parse_u32, same_text, u32_text_value, white_space,
};

verus! {

/// Whether a character is a decimal digit in any script: the Unicode decimal numbers (general
/// category Nd, Unicode 16.0), each a run of ten digits from zero to nine (two runs of
/// mathematical digits hold several such runs back to back).
pub open spec fn is_decimal_digit(c: char) -> bool {
    let n = c as u32;
    ||| 0x30 <= n <= 0x39
    ||| 0x660 <= n <= 0x669
    ||| 0x6f0 <= n <= 0x6f9
    ||| 0x7c0 <= n <= 0x7c9
    ||| 0x966 <= n <= 0x96f
    ||| 0x9e6 <= n <= 0x9ef
    ||| 0xa66 <= n <= 0xa6f
    ||| 0xae6 <= n <= 0xaef
    ||| 0xb66 <= n <= 0xb6f
    ||| 0xbe6 <= n <= 0xbef
    ||| 0xc66 <= n <= 0xc6f
    ||| 0xce6 <= n <= 0xcef
    ||| 0xd66 <= n <= 0xd6f
    ||| 0xde6 <= n <= 0xdef
    ||| 0xe50 <= n <= 0xe59
    ||| 0xed0 <= n <= 0xed9
    ||| 0xf20 <= n <= 0xf29
    ||| 0x1040 <= n <= 0x1049
    ||| 0x1090 <= n <= 0x1099
    ||| 0x17e0 <= n <= 0x17e9
    ||| 0x1810 <= n <= 0x1819
    ||| 0x1946 <= n <= 0x194f
    ||| 0x19d0 <= n <= 0x19d9
    ||| 0x1a80 <= n <= 0x1a89
    ||| 0x1a90 <= n <= 0x1a99
    ||| 0x1b50 <= n <= 0x1b59
    ||| 0x1bb0 <= n <= 0x1bb9
    ||| 0x1c40 <= n <= 0x1c49
    ||| 0x1c50 <= n <= 0x1c59
    ||| 0xa620 <= n <= 0xa629
    ||| 0xa8d0 <= n <= 0xa8d9
    ||| 0xa900 <= n <= 0xa909
    ||| 0xa9d0 <= n <= 0xa9d9
    ||| 0xa9f0 <= n <= 0xa9f9
    ||| 0xaa50 <= n <= 0xaa59
    ||| 0xabf0 <= n <= 0xabf9
    ||| 0xff10 <= n <= 0xff19
    ||| 0x104a0 <= n <= 0x104a9
    ||| 0x10d30 <= n <= 0x10d39
    ||| 0x10d40 <= n <= 0x10d49
    ||| 0x11066 <= n <= 0x1106f
    ||| 0x110f0 <= n <= 0x110f9
    ||| 0x11136 <= n <= 0x1113f
    ||| 0x111d0 <= n <= 0x111d9
    ||| 0x112f0 <= n <= 0x112f9
    ||| 0x11450 <= n <= 0x11459
    ||| 0x114d0 <= n <= 0x114d9
    ||| 0x11650 <= n <= 0x11659
    ||| 0x116c0 <= n <= 0x116c9
    ||| 0x116d0 <= n <= 0x116e3
    ||| 0x11730 <= n <= 0x11739
    ||| 0x118e0 <= n <= 0x118e9
    ||| 0x11950 <= n <= 0x11959
    ||| 0x11bf0 <= n <= 0x11bf9
    ||| 0x11c50 <= n <= 0x11c59
    ||| 0x11d50 <= n <= 0x11d59
    ||| 0x11da0 <= n <= 0x11da9
    ||| 0x11f50 <= n <= 0x11f59
    ||| 0x16130 <= n <= 0x16139
    ||| 0x16a60 <= n <= 0x16a69
    ||| 0x16ac0 <= n <= 0x16ac9
    ||| 0x16b50 <= n <= 0x16b59
    ||| 0x16d70 <= n <= 0x16d79
    ||| 0x1ccf0 <= n <= 0x1ccf9
    ||| 0x1d7ce <= n <= 0x1d7ff
    ||| 0x1e140 <= n <= 0x1e149
    ||| 0x1e2f0 <= n <= 0x1e2f9
    ||| 0x1e4f0 <= n <= 0x1e4f9
    ||| 0x1e5f1 <= n <= 0x1e5fa
    ||| 0x1e950 <= n <= 0x1e959
    ||| 0x1fbf0 <= n <= 0x1fbf9
}

/// Whether a character is a decimal digit in any script.
pub fn decimal_digit(c: char) -> (digit: bool)
    ensures
        digit == is_decimal_digit(c),
{
    let n = c as u32;
    0x30 <= n && n <= 0x39
        || 0x660 <= n && n <= 0x669
        || 0x6f0 <= n && n <= 0x6f9
        || 0x7c0 <= n && n <= 0x7c9
        || 0x966 <= n && n <= 0x96f
        || 0x9e6 <= n && n <= 0x9ef
        || 0xa66 <= n && n <= 0xa6f
        || 0xae6 <= n && n <= 0xaef
        || 0xb66 <= n && n <= 0xb6f
        || 0xbe6 <= n && n <= 0xbef
        || 0xc66 <= n && n <= 0xc6f
        || 0xce6 <= n && n <= 0xcef
        || 0xd66 <= n && n <= 0xd6f
        || 0xde6 <= n && n <= 0xdef
        || 0xe50 <= n && n <= 0xe59
        || 0xed0 <= n && n <= 0xed9
        || 0xf20 <= n && n <= 0xf29
        || 0x1040 <= n && n <= 0x1049
        || 0x1090 <= n && n <= 0x1099
        || 0x17e0 <= n && n <= 0x17e9
        || 0x1810 <= n && n <= 0x1819
        || 0x1946 <= n && n <= 0x194f
        || 0x19d0 <= n && n <= 0x19d9
        || 0x1a80 <= n && n <= 0x1a89
        || 0x1a90 <= n && n <= 0x1a99
        || 0x1b50 <= n && n <= 0x1b59
        || 0x1bb0 <= n && n <= 0x1bb9
        || 0x1c40 <= n && n <= 0x1c49
        || 0x1c50 <= n && n <= 0x1c59
        || 0xa620 <= n && n <= 0xa629
        || 0xa8d0 <= n && n <= 0xa8d9
        || 0xa900 <= n && n <= 0xa909
        || 0xa9d0 <= n && n <= 0xa9d9
        || 0xa9f0 <= n && n <= 0xa9f9
        || 0xaa50 <= n && n <= 0xaa59
        || 0xabf0 <= n && n <= 0xabf9
        || 0xff10 <= n && n <= 0xff19
        || 0x104a0 <= n && n <= 0x104a9
        || 0x10d30 <= n && n <= 0x10d39
        || 0x10d40 <= n && n <= 0x10d49
        || 0x11066 <= n && n <= 0x1106f
        || 0x110f0 <= n && n <= 0x110f9
        || 0x11136 <= n && n <= 0x1113f
        || 0x111d0 <= n && n <= 0x111d9
        || 0x112f0 <= n && n <= 0x112f9
        || 0x11450 <= n && n <= 0x11459
        || 0x114d0 <= n && n <= 0x114d9
        || 0x11650 <= n && n <= 0x11659
        || 0x116c0 <= n && n <= 0x116c9
        || 0x116d0 <= n && n <= 0x116e3
        || 0x11730 <= n && n <= 0x11739
        || 0x118e0 <= n && n <= 0x118e9
        || 0x11950 <= n && n <= 0x11959
        || 0x11bf0 <= n && n <= 0x11bf9
        || 0x11c50 <= n && n <= 0x11c59
        || 0x11d50 <= n && n <= 0x11d59
        || 0x11da0 <= n && n <= 0x11da9
        || 0x11f50 <= n && n <= 0x11f59
        || 0x16130 <= n && n <= 0x16139
        || 0x16a60 <= n && n <= 0x16a69
        || 0x16ac0 <= n && n <= 0x16ac9
        || 0x16b50 <= n && n <= 0x16b59
        || 0x16d70 <= n && n <= 0x16d79
        || 0x1ccf0 <= n && n <= 0x1ccf9
        || 0x1d7ce <= n && n <= 0x1d7ff
        || 0x1e140 <= n && n <= 0x1e149
        || 0x1e2f0 <= n && n <= 0x1e2f9
        || 0x1e4f0 <= n && n <= 0x1e4f9
        || 0x1e5f1 <= n && n <= 0x1e5fa
        || 0x1e950 <= n && n <= 0x1e959
        || 0x1fbf0 <= n && n <= 0x1fbf9
}

/// Where the run of decimal digits starting at `i` ends.
pub open spec fn digit_run_end(s: Seq<char>, i: int) -> int
    decreases s.len() - i,
{
    if 0 <= i < s.len() && is_decimal_digit(s[i]) {
        digit_run_end(s, i + 1)
    } else {
        i
    }
}

/// Where the run of white space starting at `i` ends.
pub open spec fn white_run_end(s: Seq<char>, i: int) -> int
    decreases s.len() - i,
{
    if 0 <= i < s.len() && is_white_space(s[i]) {
        white_run_end(s, i + 1)
    } else {
        i
    }
}

/// Whether no newline follows position `i`.
pub open spec fn newline_free_from(s: Seq<char>, i: int) -> bool {
    forall|j: int| i <= j < s.len() ==> s[j] != '\n'
}

/// Where the device name starts, when white space then a name (a first character that is not
/// `:`, then no newline to the end) is read from `i`: after as much white space as possible.
pub open spec fn name_start(s: Seq<char>, i: int) -> Option<int> {
    let e = white_run_end(s, i);
    if e < s.len() && s[e] != ':' && newline_free_from(s, e + 1) {
        Some(e)
    } else if e > i && newline_free_from(s, e) {
        Some(e - 1)
    } else {
        None
    }
}

/// The optional index and the name of a device name, `[digits] [white space] : [white space]
/// name` or `[white space] name`, preferring the first form; none if neither form fits. The
/// digits are decimal digits of any script.
pub open spec fn dev_name_parts(s: Seq<char>) -> Option<(Option<Seq<char>>, Seq<char>)> {
    let d = digit_run_end(s, 0);
    let w = white_run_end(s, d);
    if w < s.len() && s[w] == ':' && name_start(s, w + 1) is Some {
        Some((Some(s.take(d)), s.skip(name_start(s, w + 1)->0)))
    } else {
        match name_start(s, 0) {
            Some(k) => Some((None, s.skip(k))),
            None => None,
        }
    }
}

/// The index and name that a device name gives, or the error text.
pub open spec fn dev_name_parse(s: Seq<char>) -> Result<(Option<nat>, Seq<char>), Seq<char>> {
    match dev_name_parts(s) {
        None => Err("Device name does not match pattern [number:] name"@),
        Some((Some(digits), name)) => if digits.len() == 0 {
            Err("Missing device index number at start of '"@ + s + "'"@)
        } else {
            Ok((Some(digits_value(digits)), name))
        },
        Some((None, name)) => Ok((None, name)),
    }
}

fn digit_run(chars: &Vec<char>, start: usize) -> (end: usize)
    requires
        start <= chars@.len(),
    ensures
        end == digit_run_end(chars@, start as int),
        start <= end <= chars@.len(),
{
    let mut i = start;
    while i < chars.len() && decimal_digit(chars[i])
        invariant
            start <= i <= chars@.len(),
            digit_run_end(chars@, i as int) == digit_run_end(chars@, start as int),
        decreases chars.len() - i,
    {
        i += 1;
    }
    i
}

fn white_run(chars: &Vec<char>, start: usize) -> (end: usize)
    requires
        start <= chars@.len(),
    ensures
        end == white_run_end(chars@, start as int),
        start <= end <= chars@.len(),
{
    let mut i = start;
    while i < chars.len() && white_space(chars[i])
        invariant
            start <= i <= chars@.len(),
            white_run_end(chars@, i as int) == white_run_end(chars@, start as int),
        decreases chars.len() - i,
    {
        i += 1;
    }
    i
}

fn no_newline_from(chars: &Vec<char>, start: usize) -> (free: bool)
    requires
        start <= chars@.len(),
    ensures
        free == newline_free_from(chars@, start as int),
{
    let mut i = start;
    while i < chars.len()
        invariant
            start <= i <= chars@.len(),
            newline_free_from(chars@, start as int) == newline_free_from(chars@, i as int),
        decreases chars.len() - i,
    {
        if chars[i] == '\n' {
            return false;
        }
        i += 1;
    }
    true
}

fn find_name_start(chars: &Vec<char>, start: usize) -> (found: Option<usize>)
    requires
        start <= chars@.len(),
    ensures
        found is Some <==> name_start(chars@, start as int) is Some,
        found matches Some(k) ==> name_start(chars@, start as int) == Some(k as int) && k
            < chars@.len(),
{
    let e = white_run(chars, start);
    if e < chars.len() && chars[e] != ':' && no_newline_from(chars, e + 1) {
        Some(e)
    } else if e > start && no_newline_from(chars, e) {
        Some(e - 1)
    } else {
        None
    }
}

/// Splits a device name into the device index that may start it and the name: `3:microphone`
/// and `3 : microphone` give index 3 and name `microphone`; `speaker` gives no index. An index
/// is read as an ASCII number that fits a `usize`; an index in the digits of another script, or
/// too large, is not accepted.
pub fn parse_dev_name(dev_name: &str) -> (parsed: Result<(Option<usize>, String), String>)
    requires
        dev_name_parts(dev_name@) matches Some((Some(digits), _)) ==> all_ascii_digits(digits)
            && digits_value(digits) <= usize::MAX,
    ensures
        match dev_name_parse(dev_name@) {
            Ok((index, name)) => parsed matches Ok((i, n)) && n@ == name && i == (match index {
                Some(v) => Some(v as usize),
                None => None::<usize>,
            }),
            Err(message) => parsed matches Err(m) && m@ == message,
        },
{
    let chars = chars_of(dev_name);
    let d = digit_run(&chars, 0);
    let w = white_run(&chars, d);
    let mut index_prefix: Option<usize> = None;
    if w < chars.len() && chars[w] == ':' {
        match find_name_start(&chars, w + 1) {
            Some(k) => {
                index_prefix = Some(k);
            },
            None => {},
        }
    }
    match index_prefix {
        Some(k) => {
            assert(dev_name_parts(dev_name@) == Some(
                (Some(chars@.take(d as int)), chars@.skip(k as int)),
            ));
            if d == 0 {
                assert(chars@.take(0) =~= Seq::<char>::empty());
                let mut message = String::from_str("Missing device index number at start of '");
                message.append(dev_name);
                message.append("'");
                return Err(message);
            }
            assert(chars@.subrange(0, d as int) =~= chars@.take(d as int));
            let index = digits_to_usize(&chars, 0, d).unwrap();
            let name = dev_name.substring_char(k, chars.len()).to_owned();
            assert(chars@.subrange(k as int, chars@.len() as int) =~= chars@.skip(k as int));
            Ok((Some(index), name))
        },
        None => match find_name_start(&chars, 0) {
            Some(k) => {
                let name = dev_name.substring_char(k, chars.len()).to_owned();
                assert(chars@.subrange(k as int, chars@.len() as int) =~= chars@.skip(k as int));
                Ok((None, name))
            },
            None => Err(String::from_str("Device name does not match pattern [number:] name")),
        },
    }
}


/// Whether a device serves as the named device in one direction: it has the name, has channels
/// in that direction, and supports the sample rate.
pub fn named_device_usable(dev_name: &str, device_name: &str, channels: i32, rate_supported: bool) -> (usable: bool)
    ensures
        usable == (device_name@ == dev_name@ && channels > 0 && rate_supported),
{
    same_text(device_name, dev_name) && channels > 0 && rate_supported
}

/// Whether a device is the output device asked for: a request that is a number names the
/// device with that index; any other request names the device with that name. The device must
/// have output channels and support the sample rate.
pub fn output_device_chosen(
    dev_name: &str,
    device_index: u32,
    device_name: &str,
    channels: i32,
    rate_supported: bool,
) -> (chosen: bool)
    ensures
        chosen == ((match u32_text_value(dev_name@) {
            Some(index) => device_index == index,
            None => device_name@ == dev_name@,
        }) && channels > 0 && rate_supported),
{
    let matches_request = match parse_u32(dev_name) {
        Some(index) => device_index == index,
        None => same_text(device_name, dev_name),
    };
    matches_request && channels > 0 && rate_supported
}

/// Whether a device supports the sample rate in a direction it has channels for.
pub fn rate_supported_in_some_direction(
    in_channels: i32,
    in_supported: bool,
    out_channels: i32,
    out_supported: bool,
) -> (supported: bool)
    ensures
        supported == ((in_channels > 0 && in_supported) || (out_channels > 0 && out_supported)),
{
    (in_channels > 0 && in_supported) || (out_channels > 0 && out_supported)
}

/// What checking one configured device found.
#[derive(Debug, PartialEq, Eq, Structural, Copy, Clone)]
pub enum DeviceCheck {
    /// No device name is configured.
    NotConfigured,
    /// A name is configured, but no such device is present.
    Missing,
    /// The configured device is present.
    Present,
}

/// The check of a configured device: an empty name is not configured; otherwise the device
/// is present or missing, as the system reports it. The presence of a device with an empty
/// name is not asked for, and `present` is then not read.
pub fn device_check(dev_name: &str, present: bool) -> (check: DeviceCheck)
    ensures
        check == (if dev_name@.len() == 0 {
            DeviceCheck::NotConfigured
        } else if present {
            DeviceCheck::Present
        } else {
            DeviceCheck::Missing
        }),
{
    if dev_name.unicode_len() == 0 {
        DeviceCheck::NotConfigured
    } else if present {
        DeviceCheck::Present
    } else {
        DeviceCheck::Missing
    }
}

/// Whether the audio devices are all usable: the audio output, the rig output and the rig
/// input are each configured and present.
pub fn audio_devices_ok(audio_out: DeviceCheck, rig_out: DeviceCheck, rig_in: DeviceCheck) -> (ok: bool)
    ensures
        ok == (audio_out == DeviceCheck::Present && rig_out == DeviceCheck::Present && rig_in
            == DeviceCheck::Present),
{
    audio_out == DeviceCheck::Present && rig_out == DeviceCheck::Present && rig_in == DeviceCheck::Present
}

} // verus!
