//! Discovery of the device through sysfs.
//!
//! Identification comes from `/sys/class/hidraw/<n>/device/uevent`, which
//! exists for any HID device on any bus. No device node is opened here: the
//! caller reads the sysfs text and hands it to these functions.

use vstd::prelude::*;
use vstd::string::StringExecFns;
use vstd::utf8::encode_utf8;

use crate::device::{is_supported, spec_is_supported};
use crate::texto::{
    bytes_lt, find_byte_from_to, index_of, lemma_index_of_bounds, lemma_lex_transitive,
    lemma_lex_trichotomy, lex_lt, matches_at, parse_unsigned, spec_parse_unsigned, spec_trim,
    trim_bounds,
};

verus! {

/// The bytes of a string, as UTF-8.
pub open spec fn str_bytes(s: Seq<char>) -> Seq<u8> {
    encode_utf8(s)
}

/// `HID_ID=`.
pub open spec fn hid_id_key() -> Seq<u8> {
    seq![72u8, 73u8, 68u8, 95u8, 73u8, 68u8, 61u8]
}

/// `HID_NAME=`.
pub open spec fn hid_name_key() -> Seq<u8> {
    seq![72u8, 73u8, 68u8, 95u8, 78u8, 65u8, 77u8, 69u8, 61u8]
}

/// Whether `line` starts with `p`.
pub open spec fn has_prefix(line: Seq<u8>, p: Seq<u8>) -> bool {
    line.len() >= p.len() && line.subrange(0, p.len() as int) == p
}

/// `line` after the prefix `p`.
pub open spec fn after(line: Seq<u8>, p: Seq<u8>) -> Seq<u8> {
    line.subrange(p.len() as int, line.len() as int)
}

/// `from_str_radix(trim(field), 16)` into a `u32`.
pub open spec fn hex_u32(field: Seq<u8>) -> Option<int> {
    spec_parse_unsigned(spec_trim(field), 16, 0xffff_ffff)
}

/// The `HID_ID` value has the form `bus:VID:PID`, in hexadecimal: exactly
/// three fields, the last two read as `u32` after trimming and cut to 16 bits.
pub open spec fn spec_parse_hid_id(v: Seq<u8>) -> Option<(u16, u16)> {
    let p = index_of(v, 58);
    if p >= v.len() {
        None
    } else {
        let r1 = v.subrange(p + 1, v.len() as int);
        let q = index_of(r1, 58);
        if q >= r1.len() {
            None
        } else {
            let f1 = r1.subrange(0, q);
            let r2 = r1.subrange(q + 1, r1.len() as int);
            if index_of(r2, 58) < r2.len() {
                None
            } else {
                match (hex_u32(f1), hex_u32(r2)) {
                    (Some(vid), Some(pid)) => Some((vid as u16, pid as u16)),
                    _ => None,
                }
            }
        }
    }
}

/// Reads a `HID_ID` value: `bus:VID:PID` in hexadecimal.
pub fn parse_hid_id(valor: &str) -> (r: Option<(u16, u16)>)
    ensures
        r == spec_parse_hid_id(str_bytes(valor@)),
{
    let b = valor.as_bytes();
    assert(b@.subrange(0, b@.len() as int) =~= b@);
    hid_id_entre(b, 0, b.len())
}

/// Reads the bytes of `b` from `i` to `j` as a `HID_ID` value.
fn hid_id_entre(b: &[u8], i: usize, j: usize) -> (r: Option<(u16, u16)>)
    requires
        i <= j <= b@.len(),
    ensures
        r == spec_parse_hid_id(b@.subrange(i as int, j as int)),
{
    let ghost v = b@.subrange(i as int, j as int);
    let p = find_byte_from_to(b, i, j, 58);
    if p >= j {
        return None;
    }
    let ghost r1 = v.subrange(p - i + 1, v.len() as int);
    assert(r1 =~= b@.subrange(p + 1, j as int));
    let q = find_byte_from_to(b, p + 1, j, 58);
    if q >= j {
        return None;
    }
    let ghost f1 = r1.subrange(0, q - p - 1);
    let ghost r2 = r1.subrange(q - p, r1.len() as int);
    assert(f1 =~= b@.subrange(p + 1, q as int));
    assert(r2 =~= b@.subrange(q + 1, j as int));
    let extra = find_byte_from_to(b, q + 1, j, 58);
    if extra < j {
        return None;
    }
    let (a1, e1) = trim_bounds(b, p + 1, q);
    let (a2, e2) = trim_bounds(b, q + 1, j);
    let vid = parse_unsigned(b, a1, e1, 16, 0xffff_ffff);
    let pid = parse_unsigned(b, a2, e2, 16, 0xffff_ffff);
    match (vid, pid) {
        (Some(vid), Some(pid)) => Some((vid as u16, pid as u16)),
        _ => None,
    }
}

/// A line without its carriage return, when it has one at the end.
pub open spec fn strip_cr(line: Seq<u8>) -> Seq<u8> {
    if line.len() > 0 && line.last() == 13 {
        line.drop_last()
    } else {
        line
    }
}

/// The lines of a text as `str::lines` yields them: split at `\n`, a `\r`
/// before the `\n` removed, no empty line after a final `\n`.
pub open spec fn spec_lines(b: Seq<u8>) -> Seq<Seq<u8>>
    decreases b.len(),
{
    if b.len() == 0 {
        seq![]
    } else {
        let j = index_of(b, 10);
        proof {
            lemma_index_of_bounds(b, 10);
        }
        if j < b.len() {
            seq![strip_cr(b.subrange(0, j))] + spec_lines(b.subrange(j + 1, b.len() as int))
        } else {
            seq![b]
        }
    }
}

/// One line of the scan. The scan keeps the ids of the last `HID_ID` line and
/// the name of the last `HID_NAME` line.
pub open spec fn scan_line(acc: (Option<(u16, u16)>, Option<Seq<u8>>), line: Seq<u8>) -> (Option<(u16, u16)>, Option<Seq<u8>>) {
    if has_prefix(line, hid_id_key()) {
        (spec_parse_hid_id(after(line, hid_id_key())), acc.1)
    } else if has_prefix(line, hid_name_key()) {
        (acc.0, Some(after(line, hid_name_key())))
    } else {
        acc
    }
}

/// The scan of a sequence of lines, first to last.
pub open spec fn scan(lines: Seq<Seq<u8>>, acc: (Option<(u16, u16)>, Option<Seq<u8>>)) -> (Option<(u16, u16)>, Option<Seq<u8>>)
    decreases lines.len(),
{
    if lines.len() == 0 {
        acc
    } else {
        scan(lines.drop_first(), scan_line(acc, lines[0]))
    }
}

/// `HID_ID` and `HID_NAME` of a uevent, when both are present and the ids
/// parse; the last line of each kind wins.
pub open spec fn spec_identify(b: Seq<u8>) -> Option<(u16, u16, Seq<u8>)> {
    let acc = scan(spec_lines(b), (None, None));
    match acc {
        (Some((vid, pid)), Some(name)) => Some((vid, pid, name)),
        _ => None,
    }
}

proof fn lemma_scan_cons(line: Seq<u8>, rest: Seq<Seq<u8>>, acc: (Option<(u16, u16)>, Option<Seq<u8>>))
    ensures
        scan(seq![line] + rest, acc) == scan(rest, scan_line(acc, line)),
{
    let all = seq![line] + rest;
    assert(all.drop_first() =~= rest);
    assert(all[0] == line);
}

/// Reads `HID_ID` and `HID_NAME` out of a uevent already loaded.
///
/// The name comes out as bytes: turning it into a `String` first would bring
/// back the padding defect of the ioctl buffer.
pub fn identifica(uevent: &str) -> (r: Option<(u16, u16, &[u8])>)
    ensures
        r matches Some((vid, pid, name)) ==> spec_identify(str_bytes(uevent@)) == Some((vid, pid, name@)),
        r is None ==> spec_identify(str_bytes(uevent@)) is None,
{
    let b = uevent.as_bytes();
    let n = b.len();
    let ghost all = b@;
    assert(all == str_bytes(uevent@));
    let mut ids: Option<(u16, u16)> = None;
    let mut nome: Option<(usize, usize)> = None;
    let mut start: usize = 0;
    assert(b@.subrange(0, n as int) =~= all);
    while start < n
        invariant
            n == b@.len(),
            all == b@,
            start <= n,
            nome matches Some((x, y)) ==> x <= y <= n,
            scan(spec_lines(all), (None, None)) == scan(
                spec_lines(b@.subrange(start as int, n as int)),
                (ids, match nome { Some((x, y)) => Some(b@.subrange(x as int, y as int)), None => None }),
            ),
        decreases n - start,
    {
        let ghost rest = b@.subrange(start as int, n as int);
        let ghost acc = (ids, match nome { Some((x, y)) => Some(b@.subrange(x as int, y as int)), None => None });
        let nl = find_byte_from_to(b, start, n, 10);
        let e = if nl < n && nl > start && b[nl - 1] == 13 { nl - 1 } else { nl };
        let ghost line = b@.subrange(start as int, e as int);
        proof {
            lemma_index_of_bounds(rest, 10);
            if nl < n {
                assert(line =~= strip_cr(rest.subrange(0, nl - start)));
                assert(rest.subrange(nl - start + 1, rest.len() as int) =~= b@.subrange(nl + 1, n as int));
                assert(spec_lines(rest) == seq![line] + spec_lines(b@.subrange(nl + 1, n as int)));
                lemma_scan_cons(line, spec_lines(b@.subrange(nl + 1, n as int)), acc);
            } else {
                assert(line =~= rest);
                assert(spec_lines(rest) == seq![line]);
                assert(seq![line] =~= seq![line] + Seq::<Seq<u8>>::empty());
                lemma_scan_cons(line, Seq::<Seq<u8>>::empty(), acc);
                assert(spec_lines(b@.subrange(n as int, n as int)) =~= Seq::<Seq<u8>>::empty());
            }
        }
        // HID_ID=
        let id_key: [u8; 7] = [72, 73, 68, 95, 73, 68, 61];
        let name_key: [u8; 9] = [72, 73, 68, 95, 78, 65, 77, 69, 61];
        assert(id_key@ =~= hid_id_key());
        assert(name_key@ =~= hid_name_key());
        if e - start >= 7 && matches_at(b, id_key.as_slice(), start) {
            assert(line.subrange(0, 7) =~= b@.subrange(start as int, start + 7));
            assert(has_prefix(line, hid_id_key()));
            assert(after(line, hid_id_key()) =~= b@.subrange(start + 7, e as int));
            ids = hid_id_entre(b, start + 7, e);
        } else if e - start >= 9 && matches_at(b, name_key.as_slice(), start) {
            assert(line.subrange(0, 9) =~= b@.subrange(start as int, start + 9));
            assert(!has_prefix(line, hid_id_key())) by {
                if has_prefix(line, hid_id_key()) {
                    assert(line[5] == hid_id_key()[5]);
                    assert(line[5] == hid_name_key()[5]);
                }
            }
            assert(has_prefix(line, hid_name_key()));
            assert(after(line, hid_name_key()) =~= b@.subrange(start + 9, e as int));
            nome = Some((start + 9, e));
        } else {
            assert(!has_prefix(line, hid_id_key())) by {
                if has_prefix(line, hid_id_key()) {
                    assert(line.subrange(0, 7) =~= b@.subrange(start as int, start + 7));
                }
            }
            assert(!has_prefix(line, hid_name_key())) by {
                if has_prefix(line, hid_name_key()) {
                    assert(line.subrange(0, 9) =~= b@.subrange(start as int, start + 9));
                }
            }
        }
        start = if nl < n { nl + 1 } else { n };
    }
    assert(spec_lines(b@.subrange(start as int, n as int)) =~= Seq::<Seq<u8>>::empty()) by {
        assert(b@.subrange(start as int, n as int).len() == 0);
    }
    match (ids, nome) {
        (Some((vid, pid)), Some((x, y))) => Some((vid, pid, vstd::slice::slice_subrange(b, x, y))),
        _ => None,
    }
}

/// What `libc::makedev` computes on Linux: the glibc layout of `major:minor`.
pub open spec fn spec_makedev(major: u32, minor: u32) -> u64 {
    let ma = major as u64;
    let mi = minor as u64;
    ((ma & 0x0000_0fff) << 8u64) | ((ma & 0xffff_f000) << 32u64) | (mi & 0x0000_00ff) | ((mi
        & 0xffff_ff00) << 12u64)
}

/// `libc::makedev`.
///
/// Trusted: the result is the bit layout that the Linux implementation in the
/// `libc` crate computes, written out in `spec_makedev`.
#[verifier::external_body]
fn makedev(major: u32, minor: u32) -> (d: u64)
    ensures
        d == spec_makedev(major, minor),
{
    libc::makedev(major, minor)
}

/// `str::parse::<u32>()`: decimal, an optional `+`, no surrounding space.
pub open spec fn dec_u32(field: Seq<u8>) -> Option<int> {
    spec_parse_unsigned(field, 10, 0xffff_ffff)
}

/// The `major:minor` of a sysfs `dev` file: trimmed, split at the first `:`,
/// each side a decimal `u32`.
pub open spec fn spec_parse_dev(text: Seq<u8>) -> Option<u64> {
    let t = spec_trim(text);
    let p = index_of(t, 58);
    if p >= t.len() {
        None
    } else {
        match (dec_u32(t.subrange(0, p)), dec_u32(t.subrange(p + 1, t.len() as int))) {
            (Some(major), Some(minor)) => Some(spec_makedev(major as u32, minor as u32)),
            _ => None,
        }
    }
}

/// Reads `major:minor` from the sysfs `dev` file.
pub fn parse_dev(texto: &str) -> (r: Option<u64>)
    ensures
        r == spec_parse_dev(str_bytes(texto@)),
{
    let b = texto.as_bytes();
    let n = b.len();
    let (s, e) = trim_bounds(b, 0, n);
    assert(b@.subrange(0, n as int) =~= b@);
    let ghost t = b@.subrange(s as int, e as int);
    let p = find_byte_from_to(b, s, e, 58);
    if p >= e {
        return None;
    }
    assert(t.subrange(0, p - s) =~= b@.subrange(s as int, p as int));
    assert(t.subrange(p - s + 1, t.len() as int) =~= b@.subrange(p + 1, e as int));
    let major = parse_unsigned(b, s, p, 10, 0xffff_ffff);
    let minor = parse_unsigned(b, p + 1, e, 10, 0xffff_ffff);
    match (major, minor) {
        (Some(major), Some(minor)) => Some(makedev(major as u32, minor as u32)),
        _ => None,
    }
}

/// Whether a uevent describes the V9 PRO: `HID_ID` and `HID_NAME` present and
/// accepted by the identification rule.
pub open spec fn spec_reconhece(uevent: Seq<u8>) -> bool {
    match spec_identify(uevent) {
        Some((vid, pid, name)) => spec_is_supported(vid, pid, name),
        None => false,
    }
}

/// Whether a uevent describes the V9 PRO. The device node of an entry that
/// does not pass this is never touched.
pub fn reconhece(uevent: &str) -> (r: bool)
    ensures
        r == spec_reconhece(str_bytes(uevent@)),
{
    match identifica(uevent) {
        Some((vid, pid, name)) => is_supported(vid, pid, name),
        None => false,
    }
}

/// What the caller read about one entry of `/sys/class/hidraw`.
pub struct EntradaSysfs {
    /// The entry's name (`hidraw5`), when it is valid UTF-8.
    pub nome: Option<String>,
    /// The content of `device/uevent`, when it could be read.
    pub uevent: Option<String>,
    /// The content of `dev`, when it could be read. Only needed for an entry
    /// that `reconhece` accepts.
    pub dev: Option<String>,
}

/// The device that matched.
///
/// Carries the `rdev` because the name is not enough: the hidraw minor is
/// recycled by the kernel, and comparing the `rdev` after `open` ties
/// identification and use to the same device.
#[derive(Debug, Clone, PartialEq, Eq)]
pub struct Found {
    /// The entry's name under `/dev`.
    pub nome: String,
    /// `major:minor` read from sysfs when the device was identified.
    pub rdev: u64,
}

/// The name and `rdev` an entry contributes, when it is the V9 PRO and its
/// `dev` file reads.
pub open spec fn candidato(e: EntradaSysfs) -> Option<(Seq<u8>, u64)> {
    match (e.nome, e.uevent, e.dev) {
        (Some(nome), Some(uevent), Some(dev)) => {
            if spec_reconhece(str_bytes(uevent@)) {
                match spec_parse_dev(str_bytes(dev@)) {
                    Some(rdev) => Some((str_bytes(nome@), rdev)),
                    None => None,
                }
            } else {
                None
            }
        },
        _ => None,
    }
}

/// The order in which candidates are sorted: by name, then by `rdev`.
pub open spec fn pair_lt(a: (Seq<u8>, u64), b: (Seq<u8>, u64)) -> bool {
    lex_lt(a.0, b.0) || (a.0 == b.0 && a.1 < b.1)
}

/// Picks the device among the entries of `/sys/class/hidraw`: of the entries
/// that are the V9 PRO and whose `dev` reads, the first in name order (then
/// `rdev` order), so that the choice does not depend on the order of the
/// directory.
pub fn find_device(entradas: &[EntradaSysfs]) -> (r: Option<Found>)
    ensures
        r is None <==> forall|k: int| 0 <= k < entradas@.len() ==> #[trigger] candidato(entradas@[k]) is None,
        r matches Some(f) ==> escolhido(entradas@, (str_bytes(f.nome@), f.rdev)),
{
    let mut best: Option<Found> = None;
    let mut i: usize = 0;
    while i < entradas.len()
        invariant
            i <= entradas@.len(),
            best is None <==> forall|k: int| 0 <= k < i ==> #[trigger] candidato(entradas@[k]) is None,
            best matches Some(f) ==> exists|k: int| 0 <= k < i && #[trigger] candidato(entradas@[k]) == Some((str_bytes(f.nome@), f.rdev)),
            best matches Some(f) ==> forall|k: int| 0 <= k < i ==> (#[trigger] candidato(entradas@[k]) matches Some(c) ==> !pair_lt(c, (str_bytes(f.nome@), f.rdev))),
        decreases entradas@.len() - i,
    {
        let e = &entradas[i];
        let mut achado: Option<Found> = None;
        if let Some(nome) = &e.nome {
            if let Some(uevent) = &e.uevent {
                if reconhece(uevent.as_str()) {
                    if let Some(dev) = &e.dev {
                        if let Some(rdev) = parse_dev(dev.as_str()) {
                            achado = Some(Found { nome: nome.clone(), rdev });
                        }
                    }
                }
            }
        }
        assert(achado matches Some(f) ==> candidato(entradas@[i as int]) == Some((str_bytes(f.nome@), f.rdev)));
        assert(achado is None ==> candidato(entradas@[i as int]) is None);
        if let Some(novo) = achado {
            let melhor = match &best {
                None => true,
                Some(atual) => {
                    let a = novo.nome.as_str().as_bytes();
                    let b = atual.nome.as_str().as_bytes();
                    bytes_lt(a, b) || (!bytes_lt(b, a) && novo.rdev < atual.rdev)
                },
            };
            proof {
                if let Some(atual) = &best {
                    let c = (str_bytes(novo.nome@), novo.rdev);
                    let o = (str_bytes(atual.nome@), atual.rdev);
                    lemma_lex_trichotomy(c.0, o.0);
                    if melhor {
                        assert(pair_lt(c, o));
                        assert forall|k: int| 0 <= k < i + 1 implies (#[trigger] candidato(entradas@[k]) matches Some(x) ==> !pair_lt(x, c)) by {
                            if let Some(x) = candidato(entradas@[k]) {
                                if k < i {
                                    if pair_lt(x, c) {
                                        lemma_lex_trichotomy(x.0, c.0);
                                        if lex_lt(x.0, c.0) && lex_lt(c.0, o.0) {
                                            lemma_lex_transitive(x.0, c.0, o.0);
                                        }
                                        assert(pair_lt(x, o));
                                    }
                                } else {
                                    lemma_lex_trichotomy(c.0, c.0);
                                }
                            }
                        }
                    } else {
                        assert(!pair_lt(c, o));
                    }
                } else {
                    let c = (str_bytes(novo.nome@), novo.rdev);
                    lemma_lex_trichotomy(c.0, c.0);
                }
            }
            if melhor {
                best = Some(novo);
            }
        }
        i = i + 1;
    }
    best
}

/// `c` is what `find_device` may pick among `entradas`: a candidate that no
/// candidate precedes.
pub open spec fn escolhido(entradas: Seq<EntradaSysfs>, c: (Seq<u8>, u64)) -> bool {
    &&& exists|k: int| 0 <= k < entradas.len() && #[trigger] candidato(entradas[k]) == Some(c)
    &&& forall|k: int| 0 <= k < entradas.len() ==> (#[trigger] candidato(entradas[k]) matches Some(x) ==> !pair_lt(x, c))
}

/// The candidates a listing offers.
pub open spec fn candidatos(entradas: Seq<EntradaSysfs>) -> Set<(Seq<u8>, u64)> {
    Set::new(|x: (Seq<u8>, u64)| exists|k: int| 0 <= k < entradas.len() && #[trigger] candidato(entradas[k]) == Some(x))
}

/// The choice does not depend on the order of the directory, which the kernel
/// does not guarantee: two listings with the same candidates, in any order,
/// lead to the same device.
pub proof fn law_choice_ignores_order(a: Seq<EntradaSysfs>, b: Seq<EntradaSysfs>, ca: (Seq<u8>, u64), cb: (Seq<u8>, u64))
    requires
        candidatos(a) == candidatos(b),
        escolhido(a, ca),
        escolhido(b, cb),
    ensures
        ca == cb,
{
    assert(candidatos(a).contains(ca));
    assert(candidatos(b).contains(ca));
    assert(candidatos(b).contains(cb));
    assert(candidatos(a).contains(cb));
    let kb = choose|k: int| 0 <= k < b.len() && #[trigger] candidato(b[k]) == Some(ca);
    let kd = choose|k: int| 0 <= k < a.len() && #[trigger] candidato(a[k]) == Some(cb);
    assert(!pair_lt(ca, cb));
    assert(!pair_lt(cb, ca));
    lemma_lex_trichotomy(ca.0, cb.0);
}

impl Found {
    /// The device node to open: `/dev/` followed by the entry's name.
    pub fn caminho(&self) -> (p: String)
        ensures
            p@ == seq!['/', 'd', 'e', 'v', '/'] + self.nome@,
    {
        proof {
            reveal_strlit("/dev/");
        }
        let mut p = String::from_str("/dev/");
        p.append(self.nome.as_str());
        p
    }
}

} // verus!
