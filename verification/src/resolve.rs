//! Where a device's control files are: the device's attribute directory and
//! its hardware-monitor directory.
//!
//! Finding them takes two looks at the file system, which the caller makes:
//! the resolver says what to look for and decides on what was found. It asks
//! whether the card's directory exists before it asks for anything else, and
//! nothing can be opened without the paths it gives.

use vstd::prelude::*;
use vstd::utf8::*;
use crate::decimal::{decimal_digits, push_unsigned};
use crate::text::{push_text, text_copy, text_from};

verus! {

/// The directories of one device.
#[derive(Debug, Clone, PartialEq, Eq)]
pub struct ResolvedDevicePaths {
    /// The device's attribute directory.
    pub home_path: String,
    /// The device's hardware-monitor directory.
    pub hwmon_path: String,
}

/// The mathematical value of a [`ResolvedDevicePaths`]: the bytes of the two
/// paths.
pub struct Paths {
    pub home: Seq<u8>,
    pub hwmon: Seq<u8>,
}

impl View for ResolvedDevicePaths {
    type V = Paths;

    open spec fn view(&self) -> Paths {
        Paths { home: encode_utf8(self.home_path@), hwmon: encode_utf8(self.hwmon_path@) }
    }
}

/// Why a device's directories were not found.
#[derive(Debug, Clone, Copy, PartialEq, Eq, Structural)]
pub enum ResolveError {
    /// The card's directory does not exist.
    DeviceNotFound,
    /// No hardware-monitor directory was found under the device.
    HardwareMonitorNotFound,
}

/// The directory of card `index`: `/sys/class/drm/card` and the index.
pub open spec fn card_directory_spec(index: u8) -> Seq<u8> {
    encode_utf8("/sys/class/drm/card"@) + decimal_digits(index as nat)
}

/// The attribute directory of card `index`: `device` under the card's
/// directory.
pub open spec fn home_path_spec(index: u8) -> Seq<u8> {
    card_directory_spec(index) + encode_utf8("/device"@)
}

/// The pattern that the hardware-monitor directory of card `index` matches:
/// `hwmon/hwmon*` under the attribute directory.
pub open spec fn hwmon_pattern_spec(index: u8) -> Seq<u8> {
    home_path_spec(index) + encode_utf8("/hwmon/hwmon*"@)
}

/// The directory of card `index`.
pub fn card_directory(index: u8) -> (r: String)
    ensures
        encode_utf8(r@) == card_directory_spec(index),
{
    let mut path = text_from("/sys/class/drm/card");
    push_unsigned(&mut path, index as u64);
    path
}

/// The attribute directory of card `index`.
pub fn home_directory(index: u8) -> (r: String)
    ensures
        encode_utf8(r@) == home_path_spec(index),
{
    let mut path = card_directory(index);
    push_text(&mut path, "/device");
    path
}

/// The pattern that the hardware-monitor directory of card `index` matches.
pub fn hwmon_pattern(index: u8) -> (r: String)
    ensures
        encode_utf8(r@) == hwmon_pattern_spec(index),
{
    let mut path = home_directory(index);
    push_text(&mut path, "/hwmon/hwmon*");
    path
}

/// The bytes of a path that may be missing.
pub open spec fn candidate_bytes(candidate: Option<String>) -> Option<Seq<u8>> {
    match candidate {
        Some(path) => Some(encode_utf8(path@)),
        None => None,
    }
}

/// The bytes of the candidates of a pattern search.
pub open spec fn candidates_bytes(candidates: Seq<Option<String>>) -> Seq<Option<Seq<u8>>> {
    Seq::new(candidates.len(), |i: int| candidate_bytes(candidates[i]))
}

/// The first candidate that is a path. A candidate is `None` where the
/// search met an entry that it could not read or whose path is not text.
pub open spec fn first_usable(candidates: Seq<Option<Seq<u8>>>) -> Option<Seq<u8>>
    decreases candidates.len(),
{
    if candidates.len() == 0 {
        None
    } else {
        match candidates[0] {
            Some(path) => Some(path),
            None => first_usable(candidates.drop_first()),
        }
    }
}

/// What the resolver asks its caller to do.
#[derive(Debug, Clone, PartialEq, Eq)]
pub enum ResolveRequest {
    /// Report whether this directory exists.
    ProbeDirectory(String),
    /// Report what matches this pattern, in the order found.
    ListMatches(String),
}

/// What the caller reports back.
#[derive(Debug, Clone, PartialEq, Eq)]
pub enum ResolveReply {
    /// Whether the directory exists.
    Directory(bool),
    /// The matches of the pattern: the path of each, or `None` for an entry
    /// that could not be read or whose path is not text.
    Matches(Vec<Option<String>>),
}

/// The mathematical value of a [`ResolveRequest`].
pub enum ResolveRequestView {
    ProbeDirectory(Seq<u8>),
    ListMatches(Seq<u8>),
}

/// The mathematical value of a [`ResolveReply`].
pub enum ResolveReplyView {
    Directory(bool),
    Matches(Seq<Option<Seq<u8>>>),
}

impl View for ResolveRequest {
    type V = ResolveRequestView;

    open spec fn view(&self) -> ResolveRequestView {
        match *self {
            ResolveRequest::ProbeDirectory(path) => ResolveRequestView::ProbeDirectory(
                encode_utf8(path@),
            ),
            ResolveRequest::ListMatches(pattern) => ResolveRequestView::ListMatches(
                encode_utf8(pattern@),
            ),
        }
    }
}

impl View for ResolveReply {
    type V = ResolveReplyView;

    open spec fn view(&self) -> ResolveReplyView {
        match *self {
            ResolveReply::Directory(exists) => ResolveReplyView::Directory(exists),
            ResolveReply::Matches(candidates) => ResolveReplyView::Matches(
                candidates_bytes(candidates@),
            ),
        }
    }
}

/// A resolution under way: which device, and whether its directory has been
/// seen.
#[derive(Debug, Clone, Copy, PartialEq, Eq, Structural)]
pub struct Resolver {
    /// The device that is being resolved.
    pub device_index: u8,
    /// Whether the card's directory was reported to exist. Until then the
    /// resolver waits for the answer to its probe.
    pub directory_seen: bool,
}

/// What a resolver does after a reply.
#[derive(Debug, PartialEq, Eq)]
pub enum ResolveTurn {
    /// It goes on and asks for something.
    Ask(Resolver, ResolveRequest),
    /// It is done.
    Done(Result<ResolvedDevicePaths, ResolveError>),
}

/// The mathematical value of a [`ResolveTurn`].
pub enum ResolveTurnView {
    Ask(Resolver, ResolveRequestView),
    Done(Result<Paths, ResolveError>),
}

impl View for ResolveTurn {
    type V = ResolveTurnView;

    open spec fn view(&self) -> ResolveTurnView {
        match *self {
            ResolveTurn::Ask(resolver, request) => ResolveTurnView::Ask(resolver, request@),
            ResolveTurn::Done(Ok(paths)) => ResolveTurnView::Done(Ok(paths@)),
            ResolveTurn::Done(Err(e)) => ResolveTurnView::Done(Err(e)),
        }
    }
}

/// The beginning of a resolution: a resolver that has not seen the card's
/// directory, and the request to look for it.
pub open spec fn resolve_start(device_index: u8) -> (Resolver, ResolveRequestView) {
    (
        Resolver { device_index, directory_seen: false },
        ResolveRequestView::ProbeDirectory(card_directory_spec(device_index)),
    )
}

/// What a resolver does with a reply.
///
/// While it waits for the probe of the card's directory, only the report
/// that the directory exists lets it go on, to ask for the hardware-monitor
/// directories; any other reply ends it with `DeviceNotFound`. After that
/// the first usable match is the hardware-monitor directory, and a reply
/// without one ends it with `HardwareMonitorNotFound`.
pub open spec fn resolve_step(resolver: Resolver, reply: ResolveReplyView) -> ResolveTurnView {
    if !resolver.directory_seen {
        if reply == ResolveReplyView::Directory(true) {
            ResolveTurnView::Ask(
                Resolver { directory_seen: true, ..resolver },
                ResolveRequestView::ListMatches(hwmon_pattern_spec(resolver.device_index)),
            )
        } else {
            ResolveTurnView::Done(Err(ResolveError::DeviceNotFound))
        }
    } else {
        match reply {
            ResolveReplyView::Matches(candidates) => match first_usable(candidates) {
                Some(hwmon) => ResolveTurnView::Done(
                    Ok(Paths { home: home_path_spec(resolver.device_index), hwmon }),
                ),
                None => ResolveTurnView::Done(Err(ResolveError::HardwareMonitorNotFound)),
            },
            _ => ResolveTurnView::Done(Err(ResolveError::HardwareMonitorNotFound)),
        }
    }
}

/// The first candidate that is a path.
fn pick_first_usable(candidates: &Vec<Option<String>>) -> (r: Option<String>)
    ensures
        candidate_bytes(r) == first_usable(candidates_bytes(candidates@)),
{
    let ghost all = candidates_bytes(candidates@);
    let mut i: usize = 0;
    assert(all.skip(0) =~= all);
    while i < candidates.len()
        invariant
            i <= candidates.len(),
            all == candidates_bytes(candidates@),
            first_usable(all) == first_usable(all.skip(i as int)),
        decreases candidates.len() - i,
    {
        assert(all.skip(i as int)[0] == candidate_bytes(candidates@[i as int]));
        match &candidates[i] {
            Some(path) => {
                return Some(text_copy(path));
            },
            None => {
                assert(all.skip(i as int).drop_first() =~= all.skip(i + 1));
            },
        }
        i = i + 1;
    }
    None
}

impl Resolver {
    /// Begins the resolution of a device: the first thing asked is whether
    /// the card's directory exists.
    pub fn start(device_index: u8) -> (r: (Resolver, ResolveRequest))
        ensures
            (r.0, r.1@) == resolve_start(device_index),
    {
        (
            Resolver { device_index, directory_seen: false },
            ResolveRequest::ProbeDirectory(card_directory(device_index)),
        )
    }

    /// Takes the reply to the last request and says what comes next.
    pub fn advance(self, reply: ResolveReply) -> (turn: ResolveTurn)
        ensures
            turn@ == resolve_step(self, reply@),
    {
        if !self.directory_seen {
            match reply {
                ResolveReply::Directory(true) => ResolveTurn::Ask(
                    Resolver { device_index: self.device_index, directory_seen: true },
                    ResolveRequest::ListMatches(hwmon_pattern(self.device_index)),
                ),
                _ => ResolveTurn::Done(Err(ResolveError::DeviceNotFound)),
            }
        } else {
            match reply {
                ResolveReply::Matches(candidates) => match pick_first_usable(&candidates) {
                    Some(hwmon_path) => ResolveTurn::Done(
                        Ok(
                            ResolvedDevicePaths {
                                home_path: home_directory(self.device_index),
                                hwmon_path,
                            },
                        ),
                    ),
                    None => ResolveTurn::Done(Err(ResolveError::HardwareMonitorNotFound)),
                },
                _ => ResolveTurn::Done(Err(ResolveError::HardwareMonitorNotFound)),
            }
        }
    }
}

/// A missing card directory ends the resolution at once. Whatever the device
/// index: the first request is the probe of the card's directory, and when
/// the reply to it is anything but "the directory exists", the resolver is
/// done with `DeviceNotFound`. It has then asked for nothing else, and there
/// are no paths with which a control file could be opened.
pub proof fn lemma_missing_device_ends_resolution(device_index: u8, reply: ResolveReplyView)
    requires
        reply != ResolveReplyView::Directory(true),
    ensures
        resolve_start(device_index).1 == ResolveRequestView::ProbeDirectory(
            card_directory_spec(device_index),
        ),
        resolve_step(resolve_start(device_index).0, reply) == ResolveTurnView::Done(
            Err(ResolveError::DeviceNotFound),
        ),
{
}

/// A resolution gives paths only after both looks at the file system: the
/// card's directory was reported to exist, and then a hardware-monitor
/// directory was found. The attribute directory it gives is the one of the
/// device index, and the hardware-monitor directory is the first usable
/// match.
pub proof fn lemma_paths_come_from_both_replies(
    device_index: u8,
    first: ResolveReplyView,
    second: ResolveReplyView,
    paths: Paths,
)
    requires
        resolve_step(resolve_start(device_index).0, first) matches ResolveTurnView::Ask(next, _)
            && resolve_step(next, second) == ResolveTurnView::Done(Ok(paths)),
    ensures
        first == ResolveReplyView::Directory(true),
        second matches ResolveReplyView::Matches(candidates) && first_usable(candidates) == Some(
            paths.hwmon,
        ),
        paths.home == home_path_spec(device_index),
{
}

} // verus!
