//! EFI partition helpers: architecture names and suffixes, and finding the
//! EFI system partition of a disk from `lsblk` output or the device name.

use vstd::prelude::*;
use vstd::string::*;
use crate::intent::{lowercase, to_lowercase};
use crate::text::{
    chars_of, eq_str, is_digit, is_digit_char, last_char_pos, last_char_pos_exec, lines, push_all,
    push_str, slice_chars, split_lines, split_ws, string_of, trim, trim_chars, vviews, words,
};

verus! {

/// The EFI file-name suffix of an architecture.
pub open spec fn arch_suffix(arch: Seq<char>) -> Seq<char> {
    if arch == "aarch64"@ || arch == "arm64"@ {
        "aa64"@
    } else if arch == "i386"@ || arch == "i686"@ {
        "ia32"@
    } else {
        "x64"@
    }
}

pub fn efi_arch_suffix(arch: &str) -> (r: &'static str)
    ensures
        r@ == arch_suffix(arch@),
{
    let a = chars_of(arch);
    if eq_str(&a, "aarch64") || eq_str(&a, "arm64") {
        "aa64"
    } else if eq_str(&a, "i386") || eq_str(&a, "i686") {
        "ia32"
    } else {
        "x64"
    }
}

/// The architecture name for EFI paths from `uname -m` output (`x86_64`
/// when uname gave nothing).
pub open spec fn arch_name(uname: Option<Seq<char>>) -> Seq<char> {
    let m = match uname {
        Some(o) => trim(o),
        None => "x86_64"@,
    };
    if m == "aarch64"@ {
        "arm64"@
    } else if m == "i686"@ {
        "i386"@
    } else {
        m
    }
}

pub fn efi_arch_name(uname_output: Option<&str>) -> (r: String)
    ensures
        r@ == arch_name(
            match uname_output {
                Some(o) => Some(o@),
                None => None,
            },
        ),
{
    let m = match uname_output {
        Some(o) => trim_chars(&chars_of(o)),
        None => chars_of("x86_64"),
    };
    if eq_str(&m, "aarch64") {
        String::from_str("arm64")
    } else if eq_str(&m, "i686") {
        String::from_str("i386")
    } else {
        string_of(&m)
    }
}

/// The partition type GUID of an EFI system partition.
pub open spec fn esp_type() -> Seq<char> {
    "c12a7328-f81f-11d2-ba4b-00a0c93ec93b"@
}

/// The first partition of `lsblk -nro NAME,PARTTYPE` output whose type is
/// the EFI system partition, as a device path.
pub open spec fn esp_from_lines(ls: Seq<Seq<char>>) -> Option<Seq<char>>
    decreases ls.len(),
{
    if ls.len() == 0 {
        None
    } else {
        let parts = words(ls[0]);
        if parts.len() >= 2 && lowercase(parts[1]) == esp_type() {
            Some("/dev/"@ + parts[0])
        } else {
            esp_from_lines(ls.drop_first())
        }
    }
}

pub fn esp_in_lsblk(output: &str) -> (r: Option<String>)
    ensures
        match r {
            Some(d) => esp_from_lines(lines(output@)) == Some(d@),
            None => esp_from_lines(lines(output@)) is None,
        },
{
    let ls = split_lines(&chars_of(output));
    let mut i: usize = 0;
    assert(vviews(ls@).skip(0) =~= vviews(ls@));
    while i < ls.len()
        invariant
            i <= ls@.len(),
            vviews(ls@) == lines(output@),
            esp_from_lines(lines(output@)) == esp_from_lines(vviews(ls@).skip(i as int)),
        decreases ls.len() - i,
    {
        let ghost rest = vviews(ls@).skip(i as int);
        assert(rest[0] == ls@[i as int]@);
        assert(rest.drop_first() =~= vviews(ls@).skip(i + 1));
        let parts = split_ws(&ls[i]);
        if parts.len() >= 2 {
            let t = string_of(&parts[1]);
            let lower = to_lowercase(t.as_str());
            let lc = chars_of(lower.as_str());
            if eq_str(&lc, "c12a7328-f81f-11d2-ba4b-00a0c93ec93b") {
                let mut d: Vec<char> = Vec::new();
                push_str(&mut d, "/dev/");
                push_all(&mut d, &parts[0]);
                return Some(string_of(&d));
            }
        }
        i = i + 1;
    }
    None
}

/// All characters are ASCII digits.
pub open spec fn all_digits_or_empty(s: Seq<char>) -> bool {
    forall|i: int| 0 <= i < s.len() ==> is_digit(#[trigger] s[i])
}

/// `str::trim_end_matches` with ASCII digits.
pub open spec fn trim_end_digits(s: Seq<char>) -> Seq<char>
    decreases s.len(),
{
    if s.len() > 0 && is_digit(s.last()) {
        trim_end_digits(s.drop_last())
    } else {
        s
    }
}

/// The EFI partition guessed from the device name: partition 1 of the same
/// disk (`…p3` becomes `…p1`, `sda2` becomes `sda1`).
pub open spec fn efi_fallback(dev: Seq<char>) -> Seq<char> {
    match last_char_pos(dev, 'p') {
        Some(pos) if all_digits_or_empty(dev.skip(pos + 1 as int)) => dev.take(pos + 1 as int) + seq!['1'],
        _ => trim_end_digits(dev) + seq!['1'],
    }
}

fn efi_fallback_exec(dev: &Vec<char>) -> (r: Vec<char>)
    ensures
        r@ == efi_fallback(dev@),
{
    let n = dev.len();
    match last_char_pos_exec(dev, 'p') {
        Some(pos) => {
            assert(pos < n);
            let mut k: usize = pos + 1;
            while k < dev.len() && is_digit_char(dev[k])
                invariant
                    pos + 1 <= k <= dev@.len(),
                    forall|i: int| pos + 1 <= i < k ==> is_digit(#[trigger] dev@[i]),
                decreases dev.len() - k,
            {
                k = k + 1;
            }
            if k == dev.len() {
                let mut r = slice_chars(dev, 0, pos + 1);
                r.push('1');
                assert(all_digits_or_empty(dev@.skip(pos + 1))) by {
                    assert forall|i: int| 0 <= i < dev@.skip(pos + 1).len() implies is_digit(#[trigger] dev@.skip(pos + 1)[i]) by {
                        assert(dev@.skip(pos + 1)[i] == dev@[pos + 1 + i]);
                    }
                }
                return r;
            }
            assert(!all_digits_or_empty(dev@.skip(pos + 1))) by {
                assert(dev@.skip(pos + 1)[k - pos - 1] == dev@[k as int]);
            }
        },
        None => {},
    }
    let mut j: usize = dev.len();
    assert(dev@.take(j as int) =~= dev@);
    while j > 0 && is_digit_char(dev[j - 1])
        invariant
            j <= dev@.len(),
            trim_end_digits(dev@) == trim_end_digits(dev@.take(j as int)),
        decreases j,
    {
        assert(dev@.take(j as int).drop_last() =~= dev@.take(j - 1));
        j = j - 1;
    }
    let mut r = slice_chars(dev, 0, j);
    assert(r@ =~= dev@.take(j as int));
    r.push('1');
    r
}

/// The EFI partition of the disk holding `btrfs_dev`: the EFI system
/// partition that `lsblk` lists for the parent disk, or else the guess from
/// the device name. `parent` is the parent disk's name (empty when unknown),
/// `partitions` the `lsblk -nro NAME,PARTTYPE` output for it.
pub fn derive_efi_partition(btrfs_dev: &str, parent: &str, partitions: &str) -> (r: String)
    ensures
        r@ == (if parent@.len() > 0 && esp_from_lines(lines(partitions@)) is Some {
            esp_from_lines(lines(partitions@))->0
        } else {
            efi_fallback(btrfs_dev@)
        }),
{
    if parent.unicode_len() > 0 {
        if let Some(d) = esp_in_lsblk(partitions) {
            return d;
        }
    }
    string_of(&efi_fallback_exec(&chars_of(btrfs_dev)))
}

} // verus!
