use vstd::prelude::*;
use vstd::std_specs::convert::IntoSpec;
use vstd::string::StringSliceAdditionalSpecFns;
use vstd::std_specs::convert::FromSpecImpl;
use vstd::utf8::decode_utf8;
use vstd::utf8::valid_utf8;

use std::path::PathBuf;
use std::time::SystemTime;

verus! {

// ---------------------------------------------------------------------------
// Paths
// ---------------------------------------------------------------------------

#[verifier::external_type_specification]
#[verifier::external_body]
pub struct ExPathBuf(PathBuf);

/// The encoded bytes that a `PathBuf` holds (`as_os_str().as_encoded_bytes()`).
pub uninterp spec fn path_bytes(p: PathBuf) -> Seq<u8>;

/// What `Path::to_string_lossy` makes of the encoded bytes of a path.
pub uninterp spec fn lossy_text(bytes: Seq<u8>) -> Seq<char>;

/// The encoded bytes of `Path::new(base).join(rel)`.
pub uninterp spec fn joined_path(base: Seq<char>, rel: Seq<char>) -> Seq<u8>;

/// The encoded bytes of `Path::new(full).strip_prefix(base)`, or `None`
/// when `base` is not a prefix of `full`.
pub uninterp spec fn stripped_path(full: Seq<char>, base: Seq<char>) -> Option<Seq<u8>>;

/// Whether `Path::starts_with` finds the path `base` as a leading part of
/// the path `path`, both given by their encoded bytes.
pub uninterp spec fn path_has_prefix(path: Seq<u8>, base: Seq<u8>) -> bool;

/// `Path::starts_with`.
#[verifier::external_body]
pub(crate) fn path_starts_with(path: &PathBuf, base: &PathBuf) -> (b: bool)
    ensures
        b == path_has_prefix(path_bytes(*path), path_bytes(*base)),
{
    path.starts_with(base)
}

/// `PathBuf::from(&str)`: the path holds the UTF-8 bytes of `s`.
#[verifier::external_body]
fn path_from_str(s: &str) -> (p: PathBuf)
    ensures
        path_bytes(p) == s.spec_bytes(),
{
    PathBuf::from(s)
}

/// `<PathBuf as Clone>::clone`: the copy holds the same bytes.
pub assume_specification[ <PathBuf as Clone>::clone ](p: &PathBuf) -> (q: PathBuf)
    ensures
        path_bytes(q) == path_bytes(*p),
;

/// `Path::to_string_lossy`, made owned: the text of a path whose bytes are
/// valid UTF-8 is their decoding; other bytes are replaced as `lossy_text`
/// records.
#[verifier::external_body]
pub(crate) fn path_to_string_lossy(p: &PathBuf) -> (s: String)
    ensures
        s@ == lossy_text(path_bytes(*p)),
        valid_utf8(path_bytes(*p)) ==> s@ == decode_utf8(path_bytes(*p)),
{
    p.to_string_lossy().to_string()
}

/// `Path::to_str`, owned: the text of a path whose bytes are valid UTF-8.
#[verifier::external_body]
fn path_to_str(p: &PathBuf) -> (r: Option<String>)
    ensures
        r is Some == valid_utf8(path_bytes(*p)),
        r matches Some(s) ==> s@ == decode_utf8(path_bytes(*p)),
{
    p.to_str().map(|s| s.to_string())
}

/// `Path::join` of two textual paths.
#[verifier::external_body]
fn path_join(base: &str, rel: &str) -> (p: PathBuf)
    ensures
        path_bytes(p) == joined_path(base@, rel@),
{
    std::path::Path::new(base).join(std::path::Path::new(rel))
}

/// `Path::strip_prefix` of two textual paths, owned.
#[verifier::external_body]
fn path_strip_prefix(full: &str, base: &str) -> (r: Option<PathBuf>)
    ensures
        r is Some == stripped_path(full@, base@) is Some,
        r matches Some(p) ==> path_bytes(p) == stripped_path(full@, base@)->0,
{
    match std::path::Path::new(full).strip_prefix(std::path::Path::new(base)) {
        Ok(relative) => Some(relative.to_path_buf()),
        Err(_) => None,
    }
}

// ---------------------------------------------------------------------------
// Addresses
// ---------------------------------------------------------------------------

/// An IP address, held as its numeric value.
#[derive(Debug, Clone, Copy, PartialEq, Eq, Structural)]
pub enum IpAddr {
    /// An IPv4 address; the first octet is the most significant byte.
    V4(u32),
    /// An IPv6 address; the first segment is the most significant.
    V6(u128),
}

/// The IPv4 address with the four octets `o`.
pub open spec fn ipv4_of_octets(o: [u8; 4]) -> IpAddr {
    IpAddr::V4(
        ((o[0] as u32) * 0x100_0000 + (o[1] as u32) * 0x1_0000 + (o[2] as u32) * 0x100 + (o[3] as u32)) as u32,
    )
}

impl From<[u8; 4]> for IpAddr {
    fn from(o: [u8; 4]) -> (ip: IpAddr) {
        IpAddr::V4((o[0] as u32) * 0x100_0000 + (o[1] as u32) * 0x1_0000 + (o[2] as u32) * 0x100
            + (o[3] as u32))
    }
}

impl FromSpecImpl<[u8; 4]> for IpAddr {
    open spec fn obeys_from_spec() -> bool {
        true
    }

    open spec fn from_spec(o: [u8; 4]) -> IpAddr {
        ipv4_of_octets(o)
    }
}

} // verus!

verus! {

// ---------------------------------------------------------------------------
// Watched folders and peers
// ---------------------------------------------------------------------------

/// `rand::random::<u32>()`; nothing is known of the value drawn.
#[verifier::external_body]
fn random_u32() -> u32 {
    rand::random()
}

/// A folder that is kept in sync, with the identifier shared between peers.
#[derive(Debug, PartialEq, Clone)]
pub struct WatchedFolder {
    id: u32,
    pub path: PathBuf,
}

impl View for WatchedFolder {
    /// The identifier, and the encoded bytes of the path.
    type V = (u32, Seq<u8>);

    closed spec fn view(&self) -> (u32, Seq<u8>) {
        (self.id, path_bytes(self.path))
    }
}

impl WatchedFolder {
    /// A folder at `path` with a freshly drawn random identifier.
    pub fn new(path: &str) -> (f: WatchedFolder)
        ensures
            f@.1 == path.spec_bytes(),
    {
        WatchedFolder { id: random_u32(), path: path_from_str(path) }
    }

    /// A folder at `path`, which need not be valid UTF-8, with a freshly
    /// drawn random identifier.
    pub fn new_path(path: PathBuf) -> (f: WatchedFolder)
        ensures
            f@.1 == path_bytes(path),
    {
        WatchedFolder { id: random_u32(), path }
    }

    /// The folder `id` at `path`.
    pub fn new_full(id: u32, path: &str) -> (f: WatchedFolder)
        ensures
            f@ == (id, path.spec_bytes()),
    {
        WatchedFolder { id, path: path_from_str(path) }
    }

    /// The folder `id` at `path`.
    pub fn new_full_path(id: u32, path: PathBuf) -> (f: WatchedFolder)
        ensures
            f@ == (id, path_bytes(path)),
    {
        WatchedFolder { id, path }
    }

    pub fn path(&self) -> (p: &PathBuf)
        ensures
            path_bytes(*p) == self@.1,
    {
        &self.path
    }

    pub fn id(&self) -> (id: u32)
        ensures
            id == self@.0,
    {
        self.id
    }

    /// The line that shows this folder: the identifier in hexadecimal,
    /// right-aligned in ten columns, then ` : ` and the path.
    pub fn display_text(&self) -> (s: String)
        requires
            valid_utf8(self@.1),
        ensures
            s@ == padded_hex(self@.0) + seq![' ', ':', ' '] + decode_utf8(self@.1),
    {
        let mut s = String::new();
        push_padded_hex(&mut s, self.id);
        s.push(' ');
        s.push(':');
        s.push(' ');
        let path = path_to_str(&self.path).unwrap();
        s.append(path.as_str());
        s
    }
}

/// The alternate hexadecimal form of `id`, right-aligned in ten columns.
pub open spec fn padded_hex(id: u32) -> Seq<char> {
    let hex = seq!['0', 'x'] + crate::editor::hex_digits(id);
    Seq::new((10 - hex.len()) as nat, |i: int| ' ') + hex
}

/// Appends the alternate hexadecimal form of `id`, right-aligned in ten
/// columns, to `s`.
fn push_padded_hex(s: &mut String, id: u32)
    ensures
        final(s)@ == old(s)@ + padded_hex(id),
{
    let hex = crate::editor::hex_text(id);
    proof {
        crate::editor::lemma_hex_text_len(id);
    }
    let hex_len = hex.as_str().unicode_len();
    let ghost start = s@;
    let mut pad: usize = 0;
    while pad + hex_len < 10
        invariant
            hex_len == hex@.len(),
            s@ == start + Seq::new(pad as nat, |i: int| ' '),
            pad + hex_len <= 10,
        decreases 10 - pad - hex_len,
    {
        s.push(' ');
        pad = pad + 1;
        assert(s@ == start + Seq::new(pad as nat, |i: int| ' '));
    }
    s.append(hex.as_str());
}

/// One line per identifier in `ids`: its alternate hexadecimal form,
/// right-aligned in ten columns.
pub open spec fn id_lines(ids: Seq<u32>) -> Seq<char>
    decreases ids.len(),
{
    if ids.len() == 0 {
        Seq::empty()
    } else {
        id_lines(ids.drop_last()) + padded_hex(ids.last()) + seq!['\n']
    }
}

/// Another device, and the folders shared with it.
#[derive(Debug, PartialEq, Clone)]
pub struct Peer {
    pub ip: IpAddr,
    pub folders: Vec<u32>,
}

impl Peer {
    /// A peer at `ip` sharing no folder yet.
    pub fn new<T: Into<IpAddr>>(ip: T) -> (p: Peer)
        ensures
            T::obeys_into_spec() ==> p.ip == ip.into_spec(),
            p.folders@ == Seq::<u32>::empty(),
    {
        Peer { ip: ip.into(), folders: Vec::new() }
    }

    /// The identifiers of the shared folders.
    pub fn folders(&self) -> (ids: Vec<u32>)
        ensures
            ids@ == self.folders@,
    {
        copy_ids(&self.folders)
    }

    /// The text that shows this peer: `address`, the text of its address,
    /// then, after a line break when any folder is shared, one line per
    /// shared folder with its identifier as in [`WatchedFolder::display_text`].
    pub fn display_text(&self, address: &str) -> (s: String)
        ensures
            s@ == address@ + (if self.folders@.len() > 0 {
                seq!['\n']
            } else {
                Seq::<char>::empty()
            }) + id_lines(self.folders@),
    {
        let mut s = String::from_str(address);
        if self.folders.len() > 0 {
            s.push('\n');
        }
        let ghost head = s@;
        let mut i: usize = 0;
        while i < self.folders.len()
            invariant
                i <= self.folders@.len(),
                s@ == head + id_lines(self.folders@.take(i as int)),
            decreases self.folders@.len() - i,
        {
            push_padded_hex(&mut s, self.folders[i]);
            s.push('\n');
            proof {
                let ids = self.folders@.take(i + 1);
                assert(ids.drop_last() == self.folders@.take(i as int));
                assert(ids.last() == self.folders@[i as int]);
            }
            i = i + 1;
        }
        assert(self.folders@.take(self.folders@.len() as int) == self.folders@);
        s
    }

    /// Shares folder `id` with this peer.
    pub fn share_folder(&mut self, id: u32)
        ensures
            final(self).ip == old(self).ip,
            final(self).folders@ == old(self).folders@.push(id),
    {
        self.folders.push(id);
    }
}

/// A copy of `ids`.
pub(crate) fn copy_ids(ids: &Vec<u32>) -> (out: Vec<u32>)
    ensures
        out@ == ids@,
{
    let mut out: Vec<u32> = Vec::new();
    let mut i: usize = 0;
    while i < ids.len()
        invariant
            i <= ids@.len(),
            out@ == ids@.subrange(0, i as int),
        decreases ids@.len() - i,
    {
        out.push(ids[i]);
        i = i + 1;
        assert(ids@.subrange(0, i as int) == ids@.subrange(0, (i - 1) as int).push(ids@[i - 1]));
    }
    assert(ids@.subrange(0, ids@.len() as int) == ids@);
    out
}

} // verus!

verus! {

// ---------------------------------------------------------------------------
// Times
// ---------------------------------------------------------------------------

#[verifier::external_type_specification]
#[verifier::external_body]
pub struct ExSystemTime(SystemTime);

/// `t.duration_since(UNIX_EPOCH)` as whole seconds and the nanoseconds
/// beyond them, or `None` when `t` lies before the epoch.
pub uninterp spec fn since_epoch(t: SystemTime) -> Option<(u64, u32)>;

/// `UNIX_EPOCH.duration_since(t)` as whole seconds and the nanoseconds
/// beyond them, or `None` when `t` lies after the epoch.
pub uninterp spec fn until_epoch(t: SystemTime) -> Option<(u64, u32)>;

/// `SystemTime::duration_since(UNIX_EPOCH)`, split by `Duration::as_secs`
/// and `Duration::subsec_nanos`; `None` when `t` lies before the epoch.
#[verifier::external_body]
fn duration_since_epoch(t: SystemTime) -> (r: Option<(u64, u32)>)
    ensures
        r == since_epoch(t),
{
    t.duration_since(std::time::UNIX_EPOCH).ok().map(|d| (d.as_secs(), d.subsec_nanos()))
}

/// `UNIX_EPOCH + Duration::from_secs(secs)`; a time this far from the epoch
/// is representable. The time lies exactly `secs` seconds after the epoch,
/// so measured from the epoch it is `secs` seconds and no nanoseconds, and
/// the epoch lies before it unless `secs` is 0.
#[verifier::external_body]
fn epoch_plus_secs(secs: u64) -> (t: SystemTime)
    requires
        secs <= i64::MAX,
    ensures
        since_epoch(t) == Some((secs, 0u32)),
        until_epoch(t) == if secs == 0 {
            Some((0u64, 0u32))
        } else {
            None
        },
{
    std::time::UNIX_EPOCH + std::time::Duration::from_secs(secs)
}

/// `UNIX_EPOCH - Duration::from_secs(secs)`; a time this far from the epoch
/// is representable. The time lies exactly `secs` seconds before the epoch,
/// so the epoch is `secs` seconds and no nanoseconds after it, and it lies
/// before the epoch unless `secs` is 0.
#[verifier::external_body]
fn epoch_minus_secs(secs: u64) -> (t: SystemTime)
    requires
        secs <= i64::MAX,
    ensures
        until_epoch(t) == Some((secs, 0u32)),
        since_epoch(t) == if secs == 0 {
            Some((0u64, 0u32))
        } else {
            None
        },
{
    std::time::UNIX_EPOCH - std::time::Duration::from_secs(secs)
}

/// What [`File::system_time_as_unix`] gives for `t`: its whole seconds from
/// the epoch, wrapped as `as i64` does, and 0 for a time before the epoch.
pub open spec fn unix_secs(t: SystemTime) -> i64 {
    match since_epoch(t) {
        Some((s, _)) => s as i64,
        None => 0,
    }
}

/// `t` lies exactly `modified` seconds after the epoch (before it, when
/// `modified` is negative).
pub open spec fn is_unix_time(t: SystemTime, modified: int) -> bool {
    &&& since_epoch(t) == if modified >= 0 {
        Some((modified as u64, 0u32))
    } else {
        None
    }
    &&& until_epoch(t) == if modified <= 0 {
        Some(((-modified) as u64, 0u32))
    } else {
        None
    }
}

/// A time made from seconds and read back as seconds gives them back when
/// they are not negative, and 0 for a time before the epoch.
pub proof fn lemma_unix_time_round_trip(modified: i64, t: SystemTime)
    requires
        is_unix_time(t, modified as int),
    ensures
        unix_secs(t) == if modified >= 0 {
            modified
        } else {
            0
        },
{
}

// ---------------------------------------------------------------------------
// Tracked files
// ---------------------------------------------------------------------------

/// The state of one file as the database records it.
#[derive(Debug, Clone)]
pub struct File {
    pub folder_id: i64,
    pub path: String,
    pub local_hash: Option<Vec<u8>>,
    pub local_last_modified: Option<i64>,
    pub global_hash: Vec<u8>,
    pub global_last_modified: i64,
    pub global_peer: String,
}

/// The peer name that stands for this device.
pub open spec fn own_peer() -> Seq<char> {
    seq!['0']
}

impl File {
    /// A file known only locally: the local and the global state are both
    /// `hash` at `time`, and this device owns the global state.
    pub fn new(folder_id: u32, hash: Vec<u8>, path: String, time: i64) -> (f: File)
        ensures
            f.folder_id == folder_id,
            f.path@ == path@,
            f.local_hash matches Some(h) && h@ == hash@,
            f.local_last_modified == Some(time),
            f.global_hash@ == hash@,
            f.global_last_modified == time,
            f.global_peer@ == own_peer(),
    {
        let local = copy_bytes(&hash);
        let peer = "0".to_owned();
        proof {
            reveal_strlit("0");
        }
        File {
            folder_id: folder_id as i64,
            path,
            local_hash: Some(local),
            global_hash: hash,
            local_last_modified: Some(time),
            global_last_modified: time,
            global_peer: peer,
        }
    }

    /// Seconds from the epoch to `modified`, 0 for a time before the epoch;
    /// a count beyond `i64::MAX` wraps as `as i64` does.
    pub fn system_time_as_unix(modified: SystemTime) -> (secs: i64)
        ensures
            secs == unix_secs(modified),
    {
        match duration_since_epoch(modified) {
            Some((s, _)) => s as i64,
            None => 0,
        }
    }

    /// The time `modified` seconds after (before, when negative) the epoch.
    pub fn unix_time_as_system(modified: i64) -> (t: SystemTime)
        requires
            modified != i64::MIN,
        ensures
            is_unix_time(t, modified as int),
    {
        if modified >= 0 {
            epoch_plus_secs(modified as u64)
        } else {
            epoch_minus_secs((-modified) as u64)
        }
    }

    /// The part of `full_path` below `base`, or `None` when `base` is not a
    /// prefix of `full_path`.
    pub fn get_relative_path(base: &str, full_path: &str) -> (r: Option<PathBuf>)
        ensures
            r is Some == stripped_path(full_path@, base@) is Some,
            r matches Some(p) ==> path_bytes(p) == stripped_path(full_path@, base@)->0,
    {
        path_strip_prefix(full_path, base)
    }

    /// `relative_path` appended to `base`.
    pub fn get_full_path(base: &str, relative_path: &str) -> (p: PathBuf)
        ensures
            path_bytes(p) == joined_path(base@, relative_path@),
    {
        path_join(base, relative_path)
    }
}

/// A copy of `bytes`.
pub(crate) fn copy_bytes(bytes: &Vec<u8>) -> (out: Vec<u8>)
    ensures
        out@ == bytes@,
{
    let mut out: Vec<u8> = Vec::new();
    let mut i: usize = 0;
    while i < bytes.len()
        invariant
            i <= bytes@.len(),
            out@ == bytes@.subrange(0, i as int),
        decreases bytes@.len() - i,
    {
        out.push(bytes[i]);
        i = i + 1;
        assert(bytes@.subrange(0, i as int) == bytes@.subrange(0, (i - 1) as int).push(
            bytes@[i - 1],
        ));
    }
    assert(bytes@.subrange(0, bytes@.len() as int) == bytes@);
    out
}

} // verus!
