//! Finding removable drives in the reports of system tools: `lsblk` and `df`
//! on Linux, `diskutil` and `df` on macOS.
//!
//! The tools themselves are run by the caller; the functions here read their
//! output and build the drive records.
use vstd::prelude::*;
use crate::drive_model::{DriveModel, DriveType};
use crate::pattern::{
    captures, captures_all, compile, first_group, first_group_text, group, group_of,
    regex_captures, regex_captures_all, regex_compiles,
};
use crate::text::{
    contains, has_prefix, has_substring, is_trim_of, is_white, lemma_trimmed_cuts_white_ends,
    lines, parse_u64, parse_u64_spec, split_lines, split_words, starts_with, equals, trim,
    trimmed, words,
};

verus! {

/// Discovers removable drives.
pub struct UsbService;

impl UsbService {
    pub fn new() -> (r: UsbService)
        ensures
            r == UsbService,
    {
        UsbService
    }
}

/// `/dev/` followed by the device name.
pub open spec fn device_path_text(name: Seq<char>) -> Seq<char> {
    "/dev/"@ + name
}

/// The device file of a named device: `/dev/` and the name.
pub fn device_path(name: &str) -> (r: String)
    ensures
        r@ == device_path_text(name@),
{
    let mut r = "/dev/".to_string();
    r.append(name);
    r
}

// ---------------------------------------------------------------------------
// lsblk
// ---------------------------------------------------------------------------

/// The patterns that pick fields out of a line of `lsblk -P` output.
pub const LSBLK_NAME: &'static str = "NAME=\"([^\"]+)\"";
pub const LSBLK_MOUNTPOINT: &'static str = "MOUNTPOINT=\"([^\"]*)\"";
pub const LSBLK_LABEL: &'static str = "LABEL=\"([^\"]*)\"";
pub const LSBLK_SIZE: &'static str = "SIZE=\"([^\"]+)\"";

/// A block device that `lsblk` reports as removable or attached by USB.
#[derive(Debug, Clone, PartialEq)]
pub struct BlockDevice {
    pub name: String,
    pub label: String,
    pub mount_point: String,
    pub size_text: String,
}

/// A block device by the text of its fields.
pub struct BlockDeviceView {
    pub name: Seq<char>,
    pub label: Seq<char>,
    pub mount_point: Seq<char>,
    pub size_text: Seq<char>,
}

impl View for BlockDevice {
    type V = BlockDeviceView;

    open spec fn view(&self) -> BlockDeviceView {
        BlockDeviceView {
            name: self.name@,
            label: self.label@,
            mount_point: self.mount_point@,
            size_text: self.size_text@,
        }
    }
}

/// The text, or `default` when there is none.
pub open spec fn text_or(t: Option<Seq<char>>, default: Seq<char>) -> Seq<char> {
    match t {
        Some(x) => x,
        None => default,
    }
}

/// A line that `lsblk` marks removable (`RM="1"`) or attached by USB
/// (`TRAN="usb"`).
pub open spec fn is_removable_line(line: Seq<char>) -> bool {
    has_substring(line, "RM=\"1\""@) || has_substring(line, "TRAN=\"usb\""@)
}

/// Loop devices and optical drives are never offered.
pub open spec fn is_excluded_name(name: Seq<char>) -> bool {
    has_substring(name, "loop"@) || has_substring(name, "sr"@)
}

/// The device name found by the NAME pattern: none without a match, or for
/// an excluded device; an empty name when the group took no part.
pub open spec fn device_name_spec(found: Option<Seq<Option<Seq<char>>>>) -> Option<Seq<char>> {
    match found {
        None => None,
        Some(groups) => {
            let name = text_or(group_of(groups, 1), Seq::empty());
            if is_excluded_name(name) {
                None
            } else {
                Some(name)
            }
        },
    }
}

/// The device with `name`, given what the MOUNTPOINT, LABEL and SIZE
/// patterns found: no mount point when none, the name as label when the
/// label is missing or empty, `0` as size text when none.
pub open spec fn block_device_spec(
    name: Seq<char>,
    mount_found: Option<Seq<Option<Seq<char>>>>,
    label_found: Option<Seq<Option<Seq<char>>>>,
    size_found: Option<Seq<Option<Seq<char>>>>,
) -> BlockDeviceView {
    BlockDeviceView {
        name: name,
        label: match first_group(label_found) {
            Some(l) => if l.len() > 0 {
                l
            } else {
                name
            },
            None => name,
        },
        mount_point: text_or(first_group(mount_found), Seq::empty()),
        size_text: text_or(first_group(size_found), "0"@),
    }
}

/// The device that one line of `lsblk -P` output describes, if it is one to
/// offer.
pub open spec fn lsblk_line_device(line: Seq<char>) -> Option<BlockDeviceView> {
    if !is_removable_line(line) {
        None
    } else {
        match device_name_spec(regex_captures(LSBLK_NAME@, line)) {
            None => None,
            Some(name) => Some(
                block_device_spec(
                    name,
                    regex_captures(LSBLK_MOUNTPOINT@, line),
                    regex_captures(LSBLK_LABEL@, line),
                    regex_captures(LSBLK_SIZE@, line),
                ),
            ),
        }
    }
}

/// The devices that the lines describe, in order.
pub open spec fn lsblk_devices_spec(ls: Seq<Seq<char>>) -> Seq<BlockDeviceView>
    decreases ls.len(),
{
    if ls.len() == 0 {
        Seq::empty()
    } else {
        let before = lsblk_devices_spec(ls.drop_last());
        match lsblk_line_device(ls.last()) {
            Some(d) => before.push(d),
            None => before,
        }
    }
}

/// The lsblk patterns all compile.
pub open spec fn lsblk_patterns_compile() -> bool {
    &&& regex_compiles(LSBLK_NAME@)
    &&& regex_compiles(LSBLK_MOUNTPOINT@)
    &&& regex_compiles(LSBLK_LABEL@)
    &&& regex_compiles(LSBLK_SIZE@)
}

/// The name of the device that the NAME pattern found, unless it is a loop
/// device or an optical drive.
pub fn device_name(found: Option<Vec<Option<String>>>) -> (r: Option<String>)
    ensures
        r.deep_view() == device_name_spec(found.deep_view()),
{
    match found {
        None => None,
        Some(groups) => {
            let name = match group(&groups, 1) {
                Some(n) => n,
                None => String::new(),
            };
            if contains(name.as_str(), "loop") || contains(name.as_str(), "sr") {
                None
            } else {
                Some(name)
            }
        },
    }
}

/// The device called `name`, given what the MOUNTPOINT, LABEL and SIZE
/// patterns found on its line.
pub fn block_device(
    name: String,
    mount_found: Option<Vec<Option<String>>>,
    label_found: Option<Vec<Option<String>>>,
    size_found: Option<Vec<Option<String>>>,
) -> (r: BlockDevice)
    ensures
        r@ == block_device_spec(
            name@,
            mount_found.deep_view(),
            label_found.deep_view(),
            size_found.deep_view(),
        ),
        r.name@ == name@,
        r.label@ == name@ || (r.label@.len() > 0 && first_group(label_found.deep_view()) == Some(
            r.label@,
        )),
        (first_group(label_found.deep_view()) matches Some(l) && l.len() > 0) ==> r.label@
            == first_group(label_found.deep_view())->0,
        first_group(mount_found.deep_view()) matches Some(m) ==> r.mount_point@ == m,
        first_group(mount_found.deep_view()) is None ==> r.mount_point@.len() == 0,
        first_group(size_found.deep_view()) matches Some(z) ==> r.size_text@ == z,
        first_group(size_found.deep_view()) is None ==> r.size_text@ == "0"@,
{
    let mount_point = match first_group_text(&mount_found) {
        Some(m) => m,
        None => String::new(),
    };
    let label = match first_group_text(&label_found) {
        Some(l) => if l.as_str().unicode_len() > 0 {
            l
        } else {
            name.clone()
        },
        None => name.clone(),
    };
    let size_text = match first_group_text(&size_found) {
        Some(s) => s,
        None => "0".to_string(),
    };
    BlockDevice { name, label, mount_point, size_text }
}

/// The removable and USB devices that `lsblk -P` output lists, in order, or
/// the error of the first pattern that does not compile.
pub fn lsblk_removable_devices(output: &str) -> (r: Result<Vec<BlockDevice>, regex::Error>)
    ensures
        (r is Ok) == lsblk_patterns_compile(),
        r matches Ok(v) ==> v@.map_values(|d: BlockDevice| d@) == lsblk_devices_spec(
            lines(output@),
        ),
        r matches Ok(v) ==> forall|k: int|
            0 <= k < v@.len() ==> {
                &&& exists|j: int|
                    0 <= j < lines(output@).len() && (has_substring(
                        #[trigger] lines(output@)[j],
                        "RM=\"1\""@,
                    ) || has_substring(lines(output@)[j], "TRAN=\"usb\""@))
                        && lsblk_line_device(lines(output@)[j]) == Some((#[trigger] v@[k])@)
                &&& !has_substring(v@[k].name@, "loop"@)
                &&& !has_substring(v@[k].name@, "sr"@)
            },
{
    let name_pattern = compile(LSBLK_NAME)?;
    let mount_pattern = compile(LSBLK_MOUNTPOINT)?;
    let label_pattern = compile(LSBLK_LABEL)?;
    let size_pattern = compile(LSBLK_SIZE)?;
    let ls = split_lines(output);
    let ghost all = ls.deep_view();
    let mut devices: Vec<BlockDevice> = Vec::new();
    let mut i: usize = 0;
    while i < ls.len()
        invariant
            i <= ls@.len(),
            all == ls.deep_view(),
            all == lines(output@),
            name_pattern.source() == LSBLK_NAME@,
            mount_pattern.source() == LSBLK_MOUNTPOINT@,
            label_pattern.source() == LSBLK_LABEL@,
            size_pattern.source() == LSBLK_SIZE@,
            devices@.map_values(|d: BlockDevice| d@) == lsblk_devices_spec(all.take(i as int)),
        decreases ls@.len() - i,
    {
        let line = ls[i];
        assert(line@ == all[i as int]);
        assert(all.take(i + 1).drop_last() =~= all.take(i as int));
        let ghost before = devices@;
        if contains(line, "RM=\"1\"") || contains(line, "TRAN=\"usb\"") {
            match device_name(captures(&name_pattern, line)) {
                Some(name) => {
                    let d = block_device(
                        name,
                        captures(&mount_pattern, line),
                        captures(&label_pattern, line),
                        captures(&size_pattern, line),
                    );
                    devices.push(d);
                    assert(devices@.map_values(|d: BlockDevice| d@) =~= before.map_values(
                        |d: BlockDevice| d@,
                    ).push(d@));
                },
                None => {},
            }
        }
        i = i + 1;
    }
    assert(all.take(ls@.len() as int) =~= all);
    proof {
        lemma_offered_devices_are_removable(all);
        assert forall|k: int| 0 <= k < devices@.len() implies comes_from_removable_line(
            all,
            (#[trigger] devices@[k])@,
        ) && !has_substring(devices@[k].name@, "loop"@) && !has_substring(
            devices@[k].name@,
            "sr"@,
        ) by {
            assert(devices@.map_values(|d: BlockDevice| d@)[k] == devices@[k]@);
        }
    }
    Ok(devices)
}


/// Device `d` is what some line of `ls` describes, a line that contains the
/// text `RM="1"` (removable) or the text `TRAN="usb"` (attached by USB).
pub open spec fn comes_from_removable_line(ls: Seq<Seq<char>>, d: BlockDeviceView) -> bool {
    exists|j: int|
        0 <= j < ls.len() && (has_substring(#[trigger] ls[j], "RM=\"1\""@) || has_substring(
            ls[j],
            "TRAN=\"usb\""@,
        )) && lsblk_line_device(ls[j]) == Some(d)
}

/// Every device that lsblk output yields comes from a line that contains
/// `RM="1"` or `TRAN="usb"`, and its name contains neither `loop` nor `sr`.
pub proof fn lemma_offered_devices_are_removable(ls: Seq<Seq<char>>)
    ensures
        forall|k: int|
            0 <= k < lsblk_devices_spec(ls).len() ==> !has_substring(
                #[trigger] lsblk_devices_spec(ls)[k].name,
                "loop"@,
            ) && !has_substring(lsblk_devices_spec(ls)[k].name, "sr"@),
        forall|k: int|
            0 <= k < lsblk_devices_spec(ls).len() ==> comes_from_removable_line(
                ls,
                #[trigger] lsblk_devices_spec(ls)[k],
            ),
    decreases ls.len(),
{
    if ls.len() > 0 {
        let rest = ls.drop_last();
        lemma_offered_devices_are_removable(rest);
        let before = lsblk_devices_spec(rest);
        assert forall|k: int| 0 <= k < lsblk_devices_spec(ls).len() implies comes_from_removable_line(
            ls,
            #[trigger] lsblk_devices_spec(ls)[k],
        ) by {
            if k < before.len() {
                assert(lsblk_devices_spec(ls)[k] == before[k]);
                assert(comes_from_removable_line(rest, before[k]));
                let j = choose|j: int|
                    0 <= j < rest.len() && (has_substring(#[trigger] rest[j], "RM=\"1\""@)
                        || has_substring(rest[j], "TRAN=\"usb\""@)) && lsblk_line_device(rest[j])
                        == Some(before[k]);
                assert(ls[j] == rest[j]);
            } else {
                let last = ls.len() - 1;
                assert(ls[last] == ls.last());
                assert(lsblk_line_device(ls[last]) == Some(lsblk_devices_spec(ls)[k]));
                assert(is_removable_line(ls[last]));
            }
        }
    }
}

impl BlockDevice {
    /// Whether the device is offered: it has a size and a mount point.
    pub fn is_listable(&self, total_space: u64) -> (r: bool)
        ensures
            r == (total_space > 0 && self.mount_point@.len() > 0),
    {
        total_space > 0 && self.mount_point.as_str().unicode_len() > 0
    }

    /// The drive record for this device, given its capacity and free space:
    /// a removable, mounted USB drive named by its label, with the free space
    /// subtracted from the capacity (none used when more is free than there is).
    pub fn into_drive(self, total_space: u64, free_space: u64) -> (r: DriveModel)
        ensures
            r.id@ == device_path_text(self.name@),
            r.path@ == device_path_text(self.name@),
            r.name@ == self.label@,
            r.model@ == self.label@,
            r.mount_point@ == self.mount_point@,
            r.total_space == total_space,
            r.used_space == (if total_space > free_space {
                total_space - free_space
            } else {
                0
            }),
            r.is_removable,
            r.is_mounted,
            r.drive_type == DriveType::Usb,
            r.vendor@ == "Unknown"@,
            r.serial_number@ == Seq::<char>::empty(),
            r.usage_consistent(),
            free_space <= total_space ==> r.spec_free_space() == free_space,
    {
        let path = device_path(self.name.as_str());
        DriveModel {
            id: path.clone(),
            name: self.label.clone(),
            path,
            total_space,
            used_space: if total_space > free_space {
                total_space - free_space
            } else {
                0
            },
            is_removable: true,
            mount_point: self.mount_point,
            drive_type: DriveType::Usb,
            vendor: "Unknown".to_string(),
            model: self.label,
            serial_number: String::new(),
            is_mounted: true,
        }
    }
}


// ---------------------------------------------------------------------------
// Size texts
// ---------------------------------------------------------------------------

/// The binary unit that a size text ends with.
#[derive(Debug, Clone, Copy, PartialEq, Eq, Structural)]
pub enum SizeUnit {
    /// `K`: 1024 bytes.
    Kibi,
    /// `M`: 1024 KiB.
    Mebi,
    /// `G`: 1024 MiB.
    Gibi,
    /// `T`: 1024 GiB.
    Tebi,
}

/// How a size text such as `14.9G` or `512` reads.
#[derive(Debug, Clone, PartialEq)]
pub enum SizeNotation {
    /// Nothing but whitespace: size 0.
    Blank,
    /// A number (to be read as a decimal fraction) followed by a unit.
    Scaled { number: String, unit: SizeUnit },
    /// A whole number of bytes.
    Bytes(u64),
    /// No unit, and not a whole number that fits in a `u64`: size 0.
    Unreadable,
}

/// The unit that a final character names, if any.
pub open spec fn unit_of(c: char) -> Option<SizeUnit> {
    if c == 'G' {
        Some(SizeUnit::Gibi)
    } else if c == 'T' {
        Some(SizeUnit::Tebi)
    } else if c == 'M' {
        Some(SizeUnit::Mebi)
    } else if c == 'K' {
        Some(SizeUnit::Kibi)
    } else {
        None
    }
}

/// How the size text `s` reads once trimmed: blank; a number with a unit
/// letter at its end; or else a plain byte count, if it is one.
pub open spec fn size_notation_spec(s: Seq<char>) -> SizeNotationView {
    let t = trimmed(s);
    if t.len() == 0 {
        SizeNotationView::Blank
    } else {
        match unit_of(t.last()) {
            Some(u) => SizeNotationView::Scaled { number: t.drop_last(), unit: u },
            None => match parse_u64_spec(t) {
                Some(v) => SizeNotationView::Bytes(v),
                None => SizeNotationView::Unreadable,
            },
        }
    }
}

/// A size notation by the text of its number.
pub enum SizeNotationView {
    Blank,
    Scaled { number: Seq<char>, unit: SizeUnit },
    Bytes(u64),
    Unreadable,
}

impl View for SizeNotation {
    type V = SizeNotationView;

    open spec fn view(&self) -> SizeNotationView {
        match self {
            SizeNotation::Blank => SizeNotationView::Blank,
            SizeNotation::Scaled { number, unit } => SizeNotationView::Scaled {
                number: number@,
                unit: *unit,
            },
            SizeNotation::Bytes(v) => SizeNotationView::Bytes(*v),
            SizeNotation::Unreadable => SizeNotationView::Unreadable,
        }
    }
}

/// The letter that ends a size text in this unit.
pub open spec fn unit_letter(u: SizeUnit) -> char {
    match u {
        SizeUnit::Kibi => 'K',
        SizeUnit::Mebi => 'M',
        SizeUnit::Gibi => 'G',
        SizeUnit::Tebi => 'T',
    }
}

/// Reads a size text as `lsblk` prints it (`14.9G`, `512M`, `1.8T`, `4K`
/// or a plain byte count).
pub fn classify_size(size_str: &str) -> (r: SizeNotation)
    ensures
        r@ == size_notation_spec(size_str@),
        (r is Blank) == (forall|i: int| 0 <= i < size_str@.len() ==> is_white(#[trigger] size_str@[i])),
        r matches SizeNotation::Scaled { number, unit } ==> is_trim_of(
            size_str@,
            number@.push(unit_letter(unit)),
        ),
        r matches SizeNotation::Bytes(v) ==> parse_u64_spec(trimmed(size_str@)) == Some(v)
            && is_trim_of(size_str@, trimmed(size_str@)),
        r is Unreadable ==> parse_u64_spec(trimmed(size_str@)) is None,
{
    proof {
        lemma_trimmed_cuts_white_ends(size_str@);
        let t = trimmed(size_str@);
        let s = size_str@;
        if t.len() == 0 {
            let (a, b) = choose|a: int, b: int|
                #![trigger s.subrange(a, b)]
                0 <= a <= b <= s.len() && t == s.subrange(a, b) && (forall|i: int|
                    0 <= i < a ==> is_white(#[trigger] s[i])) && (forall|i: int|
                    b <= i < s.len() ==> is_white(#[trigger] s[i])) && (a < b ==> !is_white(s[a])
                    && !is_white(s[b - 1]));
            assert(a == b);
            assert forall|i: int| 0 <= i < s.len() implies is_white(#[trigger] s[i]) by {
                if i >= a {
                } else {
                }
            }
        } else {
            let (a, b) = choose|a: int, b: int|
                #![trigger s.subrange(a, b)]
                0 <= a <= b <= s.len() && t == s.subrange(a, b) && (forall|i: int|
                    0 <= i < a ==> is_white(#[trigger] s[i])) && (forall|i: int|
                    b <= i < s.len() ==> is_white(#[trigger] s[i])) && (a < b ==> !is_white(s[a])
                    && !is_white(s[b - 1]));
            assert(!is_white(s[a]));
            assert(t.drop_last().push(t.last()) =~= t);
        }
    }
    let t = trim(size_str);
    let n = t.unicode_len();
    if n == 0 {
        return SizeNotation::Blank;
    }
    let last = t.get_char(n - 1);
    let unit = if last == 'G' {
        Some(SizeUnit::Gibi)
    } else if last == 'T' {
        Some(SizeUnit::Tebi)
    } else if last == 'M' {
        Some(SizeUnit::Mebi)
    } else if last == 'K' {
        Some(SizeUnit::Kibi)
    } else {
        None
    };
    match unit {
        Some(u) => {
            let number = t.substring_char(0, n - 1).to_string();
            assert(t@.subrange(0, n - 1) =~= t@.drop_last());
            SizeNotation::Scaled { number, unit: u }
        },
        None => match parse_u64(t) {
            Some(v) => SizeNotation::Bytes(v),
            None => SizeNotation::Unreadable,
        },
    }
}

// ---------------------------------------------------------------------------
// df
// ---------------------------------------------------------------------------

/// The value in word `column` of the first line that has such a word and
/// where it is a whole number.
pub open spec fn first_column_value(ls: Seq<Seq<char>>, column: nat) -> Option<u64>
    decreases ls.len(),
{
    if ls.len() == 0 {
        None
    } else {
        let ws = words(ls[0]);
        if ws.len() > column && parse_u64_spec(ws[column as int]) is Some {
            parse_u64_spec(ws[column as int])
        } else {
            first_column_value(ls.drop_first(), column)
        }
    }
}

/// The number in word `column` of the first data line (after the header) of
/// `df -k` output that has one there.
pub open spec fn df_column_spec(output: Seq<char>, column: nat) -> Option<u64> {
    let ls = lines(output);
    if ls.len() == 0 {
        None
    } else {
        first_column_value(ls.drop_first(), column)
    }
}

/// What `first_column_value` finds is the number in that word of one of the
/// lines, and when it finds none, no line has a number there.
pub proof fn lemma_first_column_value_found(ls: Seq<Seq<char>>, column: nat)
    ensures
        first_column_value(ls, column) matches Some(v) ==> exists|i: int|
            0 <= i < ls.len() && words(#[trigger] ls[i]).len() > column && parse_u64_spec(
                words(ls[i])[column as int],
            ) == Some(v) && forall|j: int|
                0 <= j < i && words(#[trigger] ls[j]).len() > column ==> parse_u64_spec(
                    words(ls[j])[column as int],
                ) is None,
        first_column_value(ls, column) is None ==> forall|i: int|
            0 <= i < ls.len() && words(#[trigger] ls[i]).len() > column ==> parse_u64_spec(
                words(ls[i])[column as int],
            ) is None,
    decreases ls.len(),
{
    if ls.len() > 0 {
        let rest = ls.drop_first();
        lemma_first_column_value_found(rest, column);
        let ws = words(ls[0]);
        if ws.len() > column && parse_u64_spec(ws[column as int]) is Some {
            assert(words(ls[0]).len() > column);
        } else {
            if first_column_value(rest, column) is Some {
                let i = choose|i: int|
                    0 <= i < rest.len() && words(#[trigger] rest[i]).len() > column
                        && parse_u64_spec(words(rest[i])[column as int]) == first_column_value(
                        rest,
                        column,
                    ) && forall|j: int|
                        0 <= j < i && words(#[trigger] rest[j]).len() > column ==> parse_u64_spec(
                            words(rest[j])[column as int],
                        ) is None;
                assert(ls[i + 1] == rest[i]);
                assert forall|j: int|
                    0 <= j < i + 1 && words(#[trigger] ls[j]).len() > column implies parse_u64_spec(
                        words(ls[j])[column as int],
                    ) is None by {
                    if j > 0 {
                        assert(ls[j] == rest[j - 1]);
                    }
                }
            } else {
                assert forall|i: int|
                    0 <= i < ls.len() && words(#[trigger] ls[i]).len() > column implies parse_u64_spec(
                        words(ls[i])[column as int],
                    ) is None by {
                    if i > 0 {
                        assert(ls[i] == rest[i - 1]);
                    }
                }
            }
        }
    }
}

/// The number of KiB blocks in word `column` (counting from 0) of the first
/// data line of `df -k` output that has one there.
pub fn df_column_kib(output: &str, column: usize) -> (r: Option<u64>)
    ensures
        r == df_column_spec(output@, column as nat),
        r matches Some(v) ==> exists|i: int|
            1 <= i < lines(output@).len() && words(#[trigger] lines(output@)[i]).len() > column
                && parse_u64_spec(words(lines(output@)[i])[column as int]) == Some(v) && forall|
                j: int,
            |
                1 <= j < i && words(#[trigger] lines(output@)[j]).len() > column ==> parse_u64_spec(
                    words(lines(output@)[j])[column as int],
                ) is None,
        r is None ==> forall|i: int|
            1 <= i < lines(output@).len() && words(#[trigger] lines(output@)[i]).len() > column
                ==> parse_u64_spec(words(lines(output@)[i])[column as int]) is None,
{
    let r = df_column_scan(output, column);
    proof {
        let all = lines(output@);
        if all.len() > 0 {
            let ls = all.drop_first();
            lemma_first_column_value_found(ls, column as nat);
            if r is Some {
                let i = choose|i: int|
                    0 <= i < ls.len() && words(#[trigger] ls[i]).len() > column && parse_u64_spec(
                        words(ls[i])[column as int],
                    ) == r && forall|j: int|
                        0 <= j < i && words(#[trigger] ls[j]).len() > column ==> parse_u64_spec(
                            words(ls[j])[column as int],
                        ) is None;
                assert(all[i + 1] == ls[i]);
                assert forall|j: int|
                    1 <= j < i + 1 && words(#[trigger] all[j]).len() > column implies parse_u64_spec(
                        words(all[j])[column as int],
                    ) is None by {
                    assert(all[j] == ls[j - 1]);
                }
            } else {
                assert forall|i: int|
                    1 <= i < all.len() && words(#[trigger] all[i]).len() > column implies parse_u64_spec(
                        words(all[i])[column as int],
                    ) is None by {
                    assert(all[i] == ls[i - 1]);
                }
            }
        }
    }
    r
}

fn df_column_scan(output: &str, column: usize) -> (r: Option<u64>)
    ensures
        r == df_column_spec(output@, column as nat),
{
    let ls = split_lines(output);
    let ghost all = ls.deep_view();
    if ls.len() == 0 {
        return None;
    }
    let mut i: usize = 1;
    while i < ls.len()
        invariant
            1 <= i <= ls@.len(),
            all == ls.deep_view(),
            all == lines(output@),
            first_column_value(all.drop_first(), column as nat) == first_column_value(
                all.skip(i as int),
                column as nat,
            ),
        decreases ls@.len() - i,
    {
        assert(all.skip(i as int)[0] == all[i as int]);
        assert(all.skip(i as int).drop_first() =~= all.skip(i + 1));
        let ws = split_words(ls[i]);
        if column < ws.len() {
            let v = parse_u64(ws[column]);
            if v.is_some() {
                return v;
            }
        }
        i = i + 1;
    }
    assert(all.skip(i as int) =~= Seq::<Seq<char>>::empty());
    None
}

/// KiB blocks as bytes, 0 when there is no count.
pub fn bytes_from_kib(kib: Option<u64>) -> (r: u64)
    requires
        kib matches Some(k) ==> k <= u64::MAX / 1024,
    ensures
        r == (match kib {
            Some(k) => k * 1024,
            None => 0,
        }),
{
    match kib {
        Some(k) => k * 1024,
        None => 0,
    }
}


// ---------------------------------------------------------------------------
// diskutil (macOS)
// ---------------------------------------------------------------------------

/// The pattern that finds external physical disks in `diskutil list external`.
pub const DISKUTIL_EXTERNAL_DISK: &'static str = "/dev/(disk\\d+)\\s+\\(external,\\s+physical\\)";
/// The patterns that pick fields out of `diskutil info`.
pub const DISKUTIL_MOUNT_POINT: &'static str = "Mount Point:\\s+(.+)";
pub const DISKUTIL_VOLUME_NAME: &'static str = "Volume Name:\\s+(.+)";
pub const DISKUTIL_MEDIA_NAME: &'static str = "Device / Media Name:\\s+(.+)";
pub const DISKUTIL_TOTAL_GB: &'static str = "Total Size:\\s+([\\d.]+)\\s+GB";
pub const DISKUTIL_TOTAL_TB: &'static str = "Total Size:\\s+([\\d.]+)\\s+TB";

/// The disk names (`disk2`, ...) that the matches found, in order, skipping a
/// match whose group took no part.
pub open spec fn disk_names_spec(found: Seq<Seq<Option<Seq<char>>>>) -> Seq<Seq<char>>
    decreases found.len(),
{
    if found.len() == 0 {
        Seq::empty()
    } else {
        let before = disk_names_spec(found.drop_last());
        match group_of(found.last(), 1) {
            Some(name) => before.push(name),
            None => before,
        }
    }
}

/// The external physical disks that `diskutil list external` lists, in
/// order, or the pattern's compile error.
pub fn external_disk_names(list_output: &str) -> (r: Result<Vec<String>, regex::Error>)
    ensures
        (r is Ok) == regex_compiles(DISKUTIL_EXTERNAL_DISK@),
        r matches Ok(v) ==> v.deep_view() == disk_names_spec(
            regex_captures_all(DISKUTIL_EXTERNAL_DISK@, list_output@),
        ),
{
    let pattern = compile(DISKUTIL_EXTERNAL_DISK)?;
    let found = captures_all(&pattern, list_output);
    Ok(disk_names(&found))
}

/// The disk names that the matches found, in order.
pub fn disk_names(found: &Vec<Vec<Option<String>>>) -> (r: Vec<String>)
    ensures
        r.deep_view() == disk_names_spec(found.deep_view()),
        r@.len() <= found@.len(),
        forall|k: int|
            0 <= k < r@.len() ==> is_group_one_of_a_match(found.deep_view(), (#[trigger] r@[k])@),
{
    let r = collect_disk_names(found);
    proof {
        lemma_disk_names_come_from_matches(found.deep_view());
        assert forall|k: int| 0 <= k < r@.len() implies is_group_one_of_a_match(
            found.deep_view(),
            (#[trigger] r@[k])@,
        ) by {
            assert(r.deep_view()[k] == r@[k]@);
        }
    }
    r
}

/// `name` is group 1 of one of the matches.
pub open spec fn is_group_one_of_a_match(found: Seq<Seq<Option<Seq<char>>>>, name: Seq<char>) -> bool {
    exists|i: int| 0 <= i < found.len() && group_of(#[trigger] found[i], 1) == Some(name)
}

/// Every disk name is group 1 of one of the matches, and there are no more
/// names than matches.
pub proof fn lemma_disk_names_come_from_matches(found: Seq<Seq<Option<Seq<char>>>>)
    ensures
        disk_names_spec(found).len() <= found.len(),
        forall|k: int|
            0 <= k < disk_names_spec(found).len() ==> is_group_one_of_a_match(
                found,
                #[trigger] disk_names_spec(found)[k],
            ),
    decreases found.len(),
{
    if found.len() > 0 {
        let rest = found.drop_last();
        lemma_disk_names_come_from_matches(rest);
        let before = disk_names_spec(rest);
        assert forall|k: int| 0 <= k < disk_names_spec(found).len() implies is_group_one_of_a_match(
            found,
            #[trigger] disk_names_spec(found)[k],
        ) by {
            if k < before.len() {
                assert(disk_names_spec(found)[k] == before[k]);
                assert(is_group_one_of_a_match(rest, before[k]));
                let i = choose|i: int| 0 <= i < rest.len() && group_of(#[trigger] rest[i], 1) == Some(before[k]);
                assert(found[i] == rest[i]);
            } else {
                assert(found[found.len() - 1] == found.last());
            }
        }
    }
}

fn collect_disk_names(found: &Vec<Vec<Option<String>>>) -> (r: Vec<String>)
    ensures
        r.deep_view() == disk_names_spec(found.deep_view()),
{
    let ghost all = found.deep_view();
    let mut names: Vec<String> = Vec::new();
    let mut i: usize = 0;
    while i < found.len()
        invariant
            i <= found@.len(),
            all == found.deep_view(),
            names.deep_view() == disk_names_spec(all.take(i as int)),
        decreases found@.len() - i,
    {
        assert(all.take(i + 1).drop_last() =~= all.take(i as int));
        assert(all[i as int] == found[i as int].deep_view());
        let ghost before = names.deep_view();
        match group(&found[i], 1) {
            Some(name) => {
                names.push(name);
                assert(names.deep_view() =~= before.push(name@));
            },
            None => {},
        }
        i = i + 1;
    }
    assert(all.take(found@.len() as int) =~= all);
    names
}

/// What `diskutil info` tells of a disk.
#[derive(Debug, Clone, PartialEq)]
pub struct DiskDetails {
    pub mount_point: String,
    pub volume_name: String,
    pub vendor: String,
}

/// The details of a disk by their text.
pub struct DiskDetailsView {
    pub mount_point: Seq<char>,
    pub volume_name: Seq<char>,
    pub vendor: Seq<char>,
}

impl View for DiskDetails {
    type V = DiskDetailsView;

    open spec fn view(&self) -> DiskDetailsView {
        DiskDetailsView {
            mount_point: self.mount_point@,
            volume_name: self.volume_name@,
            vendor: self.vendor@,
        }
    }
}

/// The details of disk `disk_name`, given what the mount point, volume name
/// and media name patterns found: each field trimmed; no mount point when
/// none; `USB Drive <disk>` as volume name when none or blank; `Unknown` as
/// vendor when none.
pub open spec fn disk_details_spec(
    disk_name: Seq<char>,
    mount_found: Option<Seq<Option<Seq<char>>>>,
    name_found: Option<Seq<Option<Seq<char>>>>,
    vendor_found: Option<Seq<Option<Seq<char>>>>,
) -> DiskDetailsView {
    DiskDetailsView {
        mount_point: match first_group(mount_found) {
            Some(m) => trimmed(m),
            None => Seq::empty(),
        },
        volume_name: match first_group(name_found) {
            Some(n) => if trimmed(n).len() > 0 {
                trimmed(n)
            } else {
                "USB Drive "@ + disk_name
            },
            None => "USB Drive "@ + disk_name,
        },
        vendor: match first_group(vendor_found) {
            Some(v) => trimmed(v),
            None => "Unknown"@,
        },
    }
}

/// The diskutil info patterns all compile.
pub open spec fn disk_info_patterns_compile() -> bool {
    &&& regex_compiles(DISKUTIL_MOUNT_POINT@)
    &&& regex_compiles(DISKUTIL_VOLUME_NAME@)
    &&& regex_compiles(DISKUTIL_MEDIA_NAME@)
}

/// The details of disk `disk_name`, given what the patterns found.
pub fn details_from_captures(
    disk_name: &str,
    mount_found: Option<Vec<Option<String>>>,
    name_found: Option<Vec<Option<String>>>,
    vendor_found: Option<Vec<Option<String>>>,
) -> (r: DiskDetails)
    ensures
        r@ == disk_details_spec(
            disk_name@,
            mount_found.deep_view(),
            name_found.deep_view(),
            vendor_found.deep_view(),
        ),
        r.volume_name@.len() > 0,
        r.volume_name@ == "USB Drive "@ + disk_name@ || (first_group(name_found.deep_view()) is Some
            && r.volume_name@ == trimmed(first_group(name_found.deep_view())->0)),
        first_group(vendor_found.deep_view()) is None ==> r.vendor@ == "Unknown"@,
        first_group(vendor_found.deep_view()) matches Some(v) ==> r.vendor@ == trimmed(v),
        first_group(mount_found.deep_view()) matches Some(m) ==> r.mount_point@ == trimmed(m),
        first_group(mount_found.deep_view()) is None ==> r.mount_point@.len() == 0,
{
    proof {
        reveal_strlit("USB Drive ");
    }
    let mount_point = match first_group_text(&mount_found) {
        Some(m) => trim(m.as_str()).to_string(),
        None => String::new(),
    };
    let mut volume_name = "USB Drive ".to_string();
    volume_name.append(disk_name);
    match first_group_text(&name_found) {
        Some(n) => {
            let t = trim(n.as_str());
            if t.unicode_len() > 0 {
                volume_name = t.to_string();
            }
        },
        None => {},
    }
    let vendor = match first_group_text(&vendor_found) {
        Some(v) => trim(v.as_str()).to_string(),
        None => "Unknown".to_string(),
    };
    DiskDetails { mount_point, volume_name, vendor }
}

/// The details that `diskutil info` output gives of disk `disk_name`, or the
/// error of the first pattern that does not compile.
pub fn disk_details(info: &str, disk_name: &str) -> (r: Result<DiskDetails, regex::Error>)
    ensures
        (r is Ok) == disk_info_patterns_compile(),
        r matches Ok(d) ==> d@ == disk_details_spec(
            disk_name@,
            regex_captures(DISKUTIL_MOUNT_POINT@, info@),
            regex_captures(DISKUTIL_VOLUME_NAME@, info@),
            regex_captures(DISKUTIL_MEDIA_NAME@, info@),
        ),
{
    let mount_pattern = compile(DISKUTIL_MOUNT_POINT)?;
    let mount_found = captures(&mount_pattern, info);
    let name_pattern = compile(DISKUTIL_VOLUME_NAME)?;
    let name_found = captures(&name_pattern, info);
    let vendor_pattern = compile(DISKUTIL_MEDIA_NAME)?;
    let vendor_found = captures(&vendor_pattern, info);
    Ok(details_from_captures(disk_name, mount_found, name_found, vendor_found))
}

/// The drive record for a mounted external disk, given its capacity and free
/// space; none when the capacity is unknown (0).
pub fn mounted_disk_drive(dev_path: String, details: DiskDetails, total_space: u64, free_space: u64) -> (r: Option<DriveModel>)
    requires
        total_space > 0 ==> free_space <= total_space,
    ensures
        (r is Some) == (total_space > 0),
        r matches Some(d) ==> {
            &&& d.id@ == dev_path@
            &&& d.path@ == dev_path@
            &&& d.name@ == details.volume_name@
            &&& d.model@ == details.volume_name@
            &&& d.mount_point@ == details.mount_point@
            &&& d.vendor@ == details.vendor@
            &&& d.total_space == total_space
            &&& d.used_space == total_space - free_space
            &&& d.is_removable
            &&& d.is_mounted
            &&& d.drive_type == DriveType::Usb
            &&& d.serial_number@ == Seq::<char>::empty()
            &&& d.usage_consistent()
            &&& d.spec_free_space() == free_space
        },
{
    if total_space > 0 {
        Some(DriveModel {
            id: dev_path.clone(),
            name: details.volume_name.clone(),
            path: dev_path,
            total_space,
            used_space: total_space - free_space,
            is_removable: true,
            mount_point: details.mount_point,
            drive_type: DriveType::Usb,
            vendor: details.vendor,
            model: details.volume_name,
            serial_number: String::new(),
            is_mounted: true,
        })
    } else {
        None
    }
}

/// The unit of a `Total Size:` line of `diskutil info`.
#[derive(Debug, Clone, Copy, PartialEq, Eq, Structural)]
pub enum ReportedUnit {
    Gigabytes,
    Terabytes,
}

/// The pattern that reads a `Total Size:` line in this unit.
pub open spec fn total_size_pattern(unit: ReportedUnit) -> Seq<char> {
    match unit {
        ReportedUnit::Gigabytes => DISKUTIL_TOTAL_GB@,
        ReportedUnit::Terabytes => DISKUTIL_TOTAL_TB@,
    }
}

/// The number that `diskutil info` output gives as total size in `unit`, if
/// it gives one, or the pattern's compile error.
pub fn reported_total_size(info: &str, unit: ReportedUnit) -> (r: Result<Option<String>, regex::Error>)
    ensures
        (r is Ok) == regex_compiles(total_size_pattern(unit)),
        r matches Ok(t) ==> t.deep_view() == first_group(
            regex_captures(total_size_pattern(unit), info@),
        ),
{
    let source = match unit {
        ReportedUnit::Gigabytes => DISKUTIL_TOTAL_GB,
        ReportedUnit::Terabytes => DISKUTIL_TOTAL_TB,
    };
    let pattern = compile(source)?;
    let found = captures(&pattern, info);
    Ok(first_group_text(&found))
}

// ---------------------------------------------------------------------------
// Mounted volumes (macOS)
// ---------------------------------------------------------------------------

/// `name` is `v` or begins with it.
pub open spec fn names_volume(name: Seq<char>, v: Seq<char>) -> bool {
    name == v || has_prefix(name, v)
}

/// A system volume, never offered as a target.
pub open spec fn is_system_volume_spec(name: Seq<char>) -> bool {
    ||| names_volume(name, "Macintosh HD"@)
    ||| names_volume(name, "System"@)
    ||| names_volume(name, "Recovery"@)
    ||| names_volume(name, "com.apple"@)
    ||| names_volume(name, "Data"@)
    ||| names_volume(name, "Preboot"@)
    ||| names_volume(name, "VM"@)
    ||| names_volume(name, "Update"@)
}

fn names_volume_exec(name: &str, v: &str) -> (r: bool)
    ensures
        r == names_volume(name@, v@),
{
    equals(name, v) || starts_with(name, v)
}

/// The names of the system volumes: a volume whose name is one of them, or
/// begins with one, is never offered.
pub open spec fn system_volume_names() -> Seq<Seq<char>> {
    seq![
        "Macintosh HD"@,
        "System"@,
        "Recovery"@,
        "com.apple"@,
        "Data"@,
        "Preboot"@,
        "VM"@,
        "Update"@,
    ]
}

/// A volume is a system volume exactly when its name equals or begins with
/// one of Macintosh HD, System, Recovery, com.apple, Data, Preboot, VM and
/// Update.
pub proof fn lemma_system_volumes_are_the_listed_names(name: Seq<char>)
    ensures
        is_system_volume_spec(name) == exists|k: int|
            0 <= k < 8 && (name == #[trigger] system_volume_names()[k] || has_prefix(
                name,
                system_volume_names()[k],
            )),
        system_volume_names().len() == 8,
{
    let names = system_volume_names();
    assert(names[0] == "Macintosh HD"@);
    assert(names[1] == "System"@);
    assert(names[2] == "Recovery"@);
    assert(names[3] == "com.apple"@);
    assert(names[4] == "Data"@);
    assert(names[5] == "Preboot"@);
    assert(names[6] == "VM"@);
    assert(names[7] == "Update"@);
}

/// Whether the volume called `name` is a system volume.
pub fn is_system_volume(name: &str) -> (r: bool)
    ensures
        r == is_system_volume_spec(name@),
        r == exists|k: int|
            0 <= k < 8 && (name@ == #[trigger] system_volume_names()[k] || has_prefix(
                name@,
                system_volume_names()[k],
            )),
{
    proof {
        lemma_system_volumes_are_the_listed_names(name@);
    }
    names_volume_exec(name, "Macintosh HD") || names_volume_exec(name, "System")
        || names_volume_exec(name, "Recovery") || names_volume_exec(name, "com.apple")
        || names_volume_exec(name, "Data") || names_volume_exec(name, "Preboot")
        || names_volume_exec(name, "VM") || names_volume_exec(name, "Update")
}

/// Whether one of `drives` is mounted at `path`.
pub fn mount_point_listed(drives: &Vec<DriveModel>, path: &str) -> (r: bool)
    ensures
        r == exists|i: int| 0 <= i < drives@.len() && (#[trigger] drives@[i]).mount_point@ == path@,
{
    let mut i: usize = 0;
    while i < drives.len()
        invariant
            i <= drives@.len(),
            forall|k: int| 0 <= k < i ==> (#[trigger] drives@[k]).mount_point@ != path@,
        decreases drives@.len() - i,
    {
        if equals(drives[i].mount_point.as_str(), path) {
            return true;
        }
        i = i + 1;
    }
    false
}

/// The drive record for a mounted volume at `path`, given its capacity and
/// free space; none when the capacity is unknown (0).
pub fn volume_drive(name: String, path: String, total_space: u64, free_space: u64) -> (r: Option<DriveModel>)
    requires
        total_space > 0 ==> free_space <= total_space,
    ensures
        (r is Some) == (total_space > 0),
        r matches Some(d) ==> {
            &&& d.id@ == path@
            &&& d.path@ == path@
            &&& d.mount_point@ == path@
            &&& d.name@ == name@
            &&& d.model@ == name@
            &&& d.vendor@ == "Unknown"@
            &&& d.total_space == total_space
            &&& d.used_space == total_space - free_space
            &&& d.is_removable
            &&& d.is_mounted
            &&& d.drive_type == DriveType::Usb
            &&& d.serial_number@ == Seq::<char>::empty()
            &&& d.usage_consistent()
            &&& d.spec_free_space() == free_space
        },
{
    if total_space > 0 {
        Some(DriveModel {
            id: path.clone(),
            name: name.clone(),
            path: path.clone(),
            total_space,
            used_space: total_space - free_space,
            is_removable: true,
            mount_point: path,
            drive_type: DriveType::Usb,
            vendor: "Unknown".to_string(),
            model: name,
            serial_number: String::new(),
            is_mounted: true,
        })
    } else {
        None
    }
}


// ---------------------------------------------------------------------------
// The list of drives offered
// ---------------------------------------------------------------------------

/// Where an offered drive was found.
#[derive(Debug, Clone, Copy, PartialEq, Eq, Structural)]
pub enum DriveOrigin {
    /// An external disk that `diskutil` lists, mounted.
    Disk,
    /// A mounted volume found among the mount points.
    Volume,
    /// A block device that `lsblk` reports, with a size and a mount point.
    BlockDevice,
}

/// A drive is one to offer: it has a size, no more used than it holds, and
/// is a removable, mounted USB drive.
pub open spec fn is_offered(d: DriveModel) -> bool {
    &&& d.total_space > 0
    &&& d.usage_consistent()
    &&& d.is_removable
    &&& d.is_mounted
    &&& d.drive_type == DriveType::Usb
}

/// Some drive of `ds` is mounted at `path`.
pub open spec fn mounted_at(ds: Seq<DriveModel>, path: Seq<char>) -> bool {
    exists|i: int| 0 <= i < ds.len() && (#[trigger] ds[i]).mount_point@ == path
}

/// What holds of the list of offered drives: every drive is one to offer,
/// with its path as id, its name as model and no serial number; disks and
/// block devices have a mount point; volumes and block devices have vendor
/// "Unknown"; a block device's path is under `/dev/`; a volume is never a
/// system volume and is mounted where no drive before it is.
pub open spec fn drive_list_laws(ds: Seq<DriveModel>, origins: Seq<DriveOrigin>) -> bool {
    &&& ds.len() == origins.len()
    &&& forall|i: int| 0 <= i < ds.len() ==> is_offered(#[trigger] ds[i])
    &&& forall|i: int|
        0 <= i < ds.len() ==> {
            &&& (#[trigger] ds[i]).id@ == ds[i].path@
            &&& ds[i].model@ == ds[i].name@
            &&& ds[i].serial_number@ == Seq::<char>::empty()
        }
    &&& forall|i: int|
        0 <= i < ds.len() && origins[i] != DriveOrigin::Disk ==> (#[trigger] ds[i]).vendor@
            == "Unknown"@
    &&& forall|i: int|
        0 <= i < ds.len() && origins[i] == DriveOrigin::BlockDevice ==> has_prefix(
            (#[trigger] ds[i]).path@,
            "/dev/"@,
        )
    &&& forall|i: int|
        0 <= i < ds.len() && origins[i] != DriveOrigin::Volume ==> (#[trigger] ds[i]).mount_point@.len()
            > 0
    &&& forall|i: int|
        0 <= i < ds.len() && origins[i] == DriveOrigin::Volume ==> !is_system_volume_spec(
            (#[trigger] ds[i]).name@,
        )
    &&& forall|i: int, j: int|
        0 <= j < i < ds.len() && origins[i] == DriveOrigin::Volume ==> (#[trigger] ds[j]).mount_point@
            != (#[trigger] ds[i]).mount_point@
}

/// The drives found so far, in the order they were found.
pub struct DriveList {
    drives: Vec<DriveModel>,
    origins: Ghost<Seq<DriveOrigin>>,
}

/// A disk is looked at further only when it has a mount point that exists.
pub fn disk_wanted(details: &DiskDetails, mount_exists: bool) -> (r: bool)
    ensures
        r == (details.mount_point@.len() > 0 && mount_exists),
{
    details.mount_point.as_str().unicode_len() > 0 && mount_exists
}

impl DriveList {
    #[verifier::type_invariant]
    spec fn laws_hold(&self) -> bool {
        drive_list_laws(self.drives@, self.origins@)
    }

    /// The drives found so far.
    pub closed spec fn drives(&self) -> Seq<DriveModel> {
        self.drives@
    }

    /// Where each drive was found.
    pub closed spec fn origins(&self) -> Seq<DriveOrigin> {
        self.origins@
    }

    /// An empty list.
    pub fn new() -> (r: DriveList)
        ensures
            r.drives() == Seq::<DriveModel>::empty(),
            r.origins() == Seq::<DriveOrigin>::empty(),
    {
        let r = DriveList { drives: Vec::new(), origins: Ghost(Seq::empty()) };
        assert(r.drives@ =~= Seq::<DriveModel>::empty());
        r
    }

    fn push(&mut self, d: DriveModel, Ghost(origin): Ghost<DriveOrigin>)
        requires
            drive_list_laws(old(self).drives().push(d), old(self).origins().push(origin)),
        ensures
            final(self).drives() == old(self).drives().push(d),
            final(self).origins() == old(self).origins().push(origin),
    {
        let mut list = DriveList::new();
        std::mem::swap(self, &mut list);
        let ghost origins = list.origins@.push(origin);
        let mut drives = list.into_drives();
        drives.push(d);
        *self = DriveList { drives, origins: Ghost(origins) };
    }

    /// Whether a volume called `name` at `path` is looked at further: it is
    /// not a system volume, and no drive found so far is mounted there.
    pub fn volume_wanted(&self, name: &str, path: &str) -> (r: bool)
        ensures
            r == (!is_system_volume_spec(name@) && !mounted_at(self.drives(), path@)),
            forall|k: int|
                0 <= k < 8 && (name@ == #[trigger] system_volume_names()[k] || has_prefix(
                    name@,
                    system_volume_names()[k],
                )) ==> !r,
    {
        !is_system_volume(name) && !mount_point_listed(&self.drives, path)
    }

    /// Adds a mounted external disk with its capacity and free space; a disk
    /// of unknown capacity (0) is left out.
    pub fn add_disk(&mut self, dev_path: String, details: DiskDetails, total_space: u64, free_space: u64)
        requires
            details.mount_point@.len() > 0,
            total_space > 0 ==> free_space <= total_space,
        ensures
            total_space == 0 ==> final(self).drives() == old(self).drives(),
            total_space > 0 ==> {
                &&& final(self).drives().drop_last() == old(self).drives()
                &&& final(self).origins() == old(self).origins().push(DriveOrigin::Disk)
                &&& final(self).drives().last().id@ == dev_path@
                &&& final(self).drives().last().path@ == dev_path@
                &&& final(self).drives().last().name@ == details.volume_name@
                &&& final(self).drives().last().model@ == details.volume_name@
                &&& final(self).drives().last().mount_point@ == details.mount_point@
                &&& final(self).drives().last().vendor@ == details.vendor@
                &&& final(self).drives().last().serial_number@ == Seq::<char>::empty()
                &&& final(self).drives().last().total_space == total_space
                &&& final(self).drives().last().used_space == total_space - free_space
                &&& final(self).drives().last().spec_free_space() == free_space
                &&& is_offered(final(self).drives().last())
            },
    {
        proof {
            use_type_invariant(&*self);
        }
        match mounted_disk_drive(dev_path, details, total_space, free_space) {
            Some(d) => {
                assert(drive_list_laws(self.drives().push(d), self.origins().push(DriveOrigin::Disk)));
                self.push(d, Ghost(DriveOrigin::Disk));
                assert(self.drives().drop_last() =~= old(self).drives());
            },
            None => {},
        }
    }

    /// Adds a volume called `name` mounted at `path`, with its capacity and
    /// free space; a volume of unknown capacity (0) is left out.
    pub fn add_volume(&mut self, name: String, path: String, total_space: u64, free_space: u64)
        requires
            !is_system_volume_spec(name@),
            !mounted_at(old(self).drives(), path@),
            total_space > 0 ==> free_space <= total_space,
        ensures
            total_space == 0 ==> final(self).drives() == old(self).drives(),
            total_space > 0 ==> {
                &&& final(self).drives().drop_last() == old(self).drives()
                &&& final(self).origins() == old(self).origins().push(DriveOrigin::Volume)
                &&& final(self).drives().last().id@ == path@
                &&& final(self).drives().last().path@ == path@
                &&& final(self).drives().last().mount_point@ == path@
                &&& final(self).drives().last().name@ == name@
                &&& final(self).drives().last().model@ == name@
                &&& final(self).drives().last().vendor@ == "Unknown"@
                &&& final(self).drives().last().serial_number@ == Seq::<char>::empty()
                &&& final(self).drives().last().total_space == total_space
                &&& final(self).drives().last().used_space == total_space - free_space
                &&& final(self).drives().last().spec_free_space() == free_space
                &&& is_offered(final(self).drives().last())
            },
    {
        proof {
            use_type_invariant(&*self);
        }
        match volume_drive(name, path, total_space, free_space) {
            Some(d) => {
                let ghost ds = self.drives().push(d);
                assert forall|i: int, j: int|
                    0 <= j < i < ds.len() && self.origins().push(DriveOrigin::Volume)[i]
                        == DriveOrigin::Volume implies (#[trigger] ds[j]).mount_point@
                    != (#[trigger] ds[i]).mount_point@ by {
                    if i == ds.len() - 1 {
                        assert(ds[j] == self.drives()[j]);
                    }
                }
                self.push(d, Ghost(DriveOrigin::Volume));
                assert(self.drives().drop_last() =~= old(self).drives());
            },
            None => {},
        }
    }

    /// Adds a block device that has a size and a mount point, with its free
    /// space.
    pub fn add_block_device(&mut self, device: BlockDevice, total_space: u64, free_space: u64)
        requires
            total_space > 0,
            device.mount_point@.len() > 0,
        ensures
            final(self).drives().drop_last() == old(self).drives(),
            final(self).origins() == old(self).origins().push(DriveOrigin::BlockDevice),
            final(self).drives().last().id@ == device_path_text(device.name@),
            final(self).drives().last().path@ == device_path_text(device.name@),
            final(self).drives().last().name@ == device.label@,
            final(self).drives().last().model@ == device.label@,
            final(self).drives().last().mount_point@ == device.mount_point@,
            final(self).drives().last().vendor@ == "Unknown"@,
            final(self).drives().last().serial_number@ == Seq::<char>::empty(),
            final(self).drives().last().total_space == total_space,
            final(self).drives().last().used_space == (if total_space > free_space {
                total_space - free_space
            } else {
                0
            }),
            free_space <= total_space ==> final(self).drives().last().spec_free_space()
                == free_space,
            is_offered(final(self).drives().last()),
    {
        proof {
            use_type_invariant(&*self);
        }
        let d = device.into_drive(total_space, free_space);
        assert(d.path@.subrange(0, "/dev/"@.len() as int) =~= "/dev/"@);
        assert(drive_list_laws(self.drives().push(d), self.origins().push(DriveOrigin::BlockDevice)));
        self.push(d, Ghost(DriveOrigin::BlockDevice));
        assert(self.drives().drop_last() =~= old(self).drives());
    }

    /// The drives found, in order.
    pub fn into_drives(self) -> (r: Vec<DriveModel>)
        ensures
            r@ == self.drives(),
            drive_list_laws(r@, self.origins()),
    {
        proof {
            use_type_invariant(&self);
        }
        self.drives
    }
}

} // verus!
