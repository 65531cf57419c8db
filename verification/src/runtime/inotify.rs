//! What the preload runtime makes of inotify events: foreground changes
//! read from the top-app cgroup, package database changes, and the
//! exceptional events of the watches themselves. The watches, the reads of
//! the inotify descriptor and of the cgroup file are the runtime's.

use vstd::prelude::*;
use crate::high_level::api::InotifyStatus;
use crate::text::{parse_i32, parse_i32_text, split_ws, string_of, words};

verus! {

pub const CGROUP_PROCS_PATH: &'static str = "/dev/cpuset/top-app/cgroup.procs";
pub const PACKAGES_XML_PATH: &'static str = "/data/system/packages.xml";
pub const PACKAGES_LIST_PATH: &'static str = "/data/system/packages.list";

/// `IN_MODIFY` of inotify(7).
pub const MODIFY_MASK: u32 = 0x2;
/// `IN_MODIFY | IN_DELETE_SELF | IN_MOVE_SELF`, watched on the package files.
pub const PACKAGE_FILE_MASK: u32 = 0xc02;
/// `IN_Q_OVERFLOW`.
pub const QUEUE_OVERFLOW_MASK: u32 = 0x4000;
/// `IN_IGNORED`.
pub const IGNORED_MASK: u32 = 0x8000;
/// `IN_UNMOUNT`.
pub const UNMOUNT_MASK: u32 = 0x2000;
/// `IN_DELETE_SELF`.
pub const DELETE_SELF_MASK: u32 = 0x400;
/// `IN_MOVE_SELF`.
pub const MOVE_SELF_MASK: u32 = 0x800;

/// One decoded inotify record.
#[derive(Clone, Copy, Debug, PartialEq, Eq, Structural)]
pub struct InotifyEvent {
    pub wd: i32,
    pub mask: u32,
    /// The record's name length, kept for diagnostics.
    pub name_len: u32,
}

/// Which watched file an event is about.
#[derive(Debug, Clone, Copy, PartialEq, Eq, Structural)]
pub enum InotifySource {
    Cgroup,
    PackagesXml,
    PackagesList,
    Unknown,
}

pub open spec fn source_name(s: InotifySource) -> Seq<char> {
    match s {
        InotifySource::Cgroup => "cgroup"@,
        InotifySource::PackagesXml => "packages_xml"@,
        InotifySource::PackagesList => "packages_list"@,
        InotifySource::Unknown => "unknown"@,
    }
}

impl InotifySource {
    pub fn as_str(self) -> (r: &'static str)
        ensures
            r@ == source_name(self),
    {
        match self {
            InotifySource::Cgroup => "cgroup",
            InotifySource::PackagesXml => "packages_xml",
            InotifySource::PackagesList => "packages_list",
            InotifySource::Unknown => "unknown",
        }
    }
}

/// What the runtime learns from inotify.
#[derive(Debug, Clone, PartialEq, Eq)]
pub enum PreloadInotifyEvent {
    ForegroundChanged { old_pid: Option<i32>, new_pid: i32 },
    PackagesChanged { path: &'static str },
    Exceptional { source: InotifySource, description: &'static str, mask: u32 },
}

/// A learned event, with texts for its strings.
pub enum NoticeView {
    Foreground(Option<i32>, i32),
    Packages(Seq<char>),
    Exceptional(InotifySource, Seq<char>, u32),
}

pub open spec fn notice_view(e: PreloadInotifyEvent) -> NoticeView {
    match e {
        PreloadInotifyEvent::ForegroundChanged { old_pid, new_pid } => NoticeView::Foreground(old_pid, new_pid),
        PreloadInotifyEvent::PackagesChanged { path } => NoticeView::Packages(path@),
        PreloadInotifyEvent::Exceptional { source, description, mask } => NoticeView::Exceptional(
            source,
            description@,
            mask,
        ),
    }
}

pub open spec fn notices_view(s: Seq<PreloadInotifyEvent>) -> Seq<NoticeView> {
    s.map_values(|e: PreloadInotifyEvent| notice_view(e))
}

/// What handling one record comes to: events learned, and whether the
/// top-app cgroup changed; or a watch to register again before the record
/// can be reported (see `rewatched`).
pub enum InotifyStep {
    Done { events: Vec<PreloadInotifyEvent>, cgroup_modified: bool },
    Rewatch { source: InotifySource, mask: u32 },
}

pub struct PreloadInotify {
    /// The inotify descriptor, negative when closed.
    pub fd: i32,
    pub wd_cgroup: i32,
    pub wd_pkg_xml: i32,
    pub wd_pkg_list: i32,
    pub last_foreground_pid: Option<i32>,
    pub packages_dirty: bool,
    pub events_seen: u64,
    pub last_raw_mask: Option<u32>,
    pub last_source: Option<InotifySource>,
    pub last_exception: Option<String>,
}

/// The first word of `words` that reads as an `i32`.
pub open spec fn first_number(words: Seq<Seq<char>>) -> Option<i32>
    decreases words.len(),
{
    if words.len() == 0 {
        None
    } else {
        match parse_i32_text(words[0]) {
            Some(v) => Some(v),
            None => first_number(words.drop_first()),
        }
    }
}

/// The foreground pid listed in the top-app cgroup: the first word that
/// reads as an integer, if it is positive.
pub open spec fn top_app_pid(content: Seq<char>) -> Option<i32> {
    match first_number(split_ws(content)) {
        Some(v) => if v > 0 {
            Some(v)
        } else {
            None
        },
        None => None,
    }
}

/// Reads the foreground pid from the top-app cgroup's process list.
pub fn parse_top_app_pid(content: &str) -> (r: Option<i32>)
    ensures
        r == top_app_pid(content@),
{
    let ws = words(content);
    let ghost all = split_ws(content@);
    let n = ws.len();
    let mut i: usize = 0;
    proof {
        assert(all.skip(0) =~= all);
    }
    while i < n
        invariant
            n == ws@.len(),
            n == all.len(),
            all == split_ws(content@),
            forall|j: int| 0 <= j < n ==> #[trigger] ws@[j]@ == all[j],
            i <= n,
            first_number(all) == first_number(all.skip(i as int)),
        decreases n - i,
    {
        proof {
            assert(all.skip(i as int)[0] == all[i as int]);
            assert(all.skip(i as int).drop_first() =~= all.skip(i + 1));
        }
        match parse_i32(ws[i].as_str()) {
            Some(v) => {
                assert(parse_i32_text(all.skip(i as int)[0]) == Some(v));
                assert(first_number(all.skip(i as int)) == Some(v));
                return if v > 0 {
                    Some(v)
                } else {
                    None
                };
            },
            None => {},
        }
        i = i + 1;
    }
    None
}

/// Counts up by one, stopping at the top.
pub open spec fn saturating_inc(n: u64) -> u64 {
    if n == u64::MAX {
        n
    } else {
        (n + 1) as u64
    }
}

impl PreloadInotify {
    pub fn new(fd: i32, wd_cgroup: i32, wd_pkg_xml: i32, wd_pkg_list: i32) -> (p: Self)
        ensures
            p.fd == fd,
            p.wd_cgroup == wd_cgroup,
            p.wd_pkg_xml == wd_pkg_xml,
            p.wd_pkg_list == wd_pkg_list,
            p.last_foreground_pid is None,
            !p.packages_dirty,
            p.events_seen == 0,
            p.last_raw_mask is None,
            p.last_source is None,
            p.last_exception is None,
    {
        PreloadInotify {
            fd,
            wd_cgroup,
            wd_pkg_xml,
            wd_pkg_list,
            last_foreground_pid: None,
            packages_dirty: false,
            events_seen: 0,
            last_raw_mask: None,
            last_source: None,
            last_exception: None,
        }
    }

    pub fn packages_dirty(&self) -> (r: bool)
        ensures
            r == self.packages_dirty,
    {
        self.packages_dirty
    }

    /// The watch a descriptor belongs to.
    pub open spec fn source_of(&self, wd: i32) -> InotifySource {
        if wd == self.wd_cgroup {
            InotifySource::Cgroup
        } else if wd == self.wd_pkg_xml {
            InotifySource::PackagesXml
        } else if wd == self.wd_pkg_list {
            InotifySource::PackagesList
        } else {
            InotifySource::Unknown
        }
    }

    pub fn source_for_wd(&self, wd: i32) -> (s: InotifySource)
        ensures
            s == self.source_of(wd),
    {
        if wd == self.wd_cgroup {
            InotifySource::Cgroup
        } else if wd == self.wd_pkg_xml {
            InotifySource::PackagesXml
        } else if wd == self.wd_pkg_list {
            InotifySource::PackagesList
        } else {
            InotifySource::Unknown
        }
    }

    /// The status record: descriptors that are set, counters and the last
    /// things seen.
    pub fn status(&self) -> (s: InotifyStatus)
        ensures
            s.fd_active == (self.fd >= 0),
            s.wd_cgroup == (if self.wd_cgroup >= 0 { Some(self.wd_cgroup) } else { None }),
            s.wd_pkg_xml == (if self.wd_pkg_xml >= 0 { Some(self.wd_pkg_xml) } else { None }),
            s.wd_pkg_list == (if self.wd_pkg_list >= 0 { Some(self.wd_pkg_list) } else { None }),
            s.events_seen == self.events_seen,
            s.last_raw_mask == self.last_raw_mask,
            match self.last_source {
                Some(src) => s.last_source is Some && s.last_source->0@ == source_name(src),
                None => s.last_source is None,
            },
            s.last_foreground_pid == self.last_foreground_pid,
            s.package_cache_dirty == self.packages_dirty,
            s.last_exception == self.last_exception,
    {
        InotifyStatus {
            fd_active: self.fd >= 0,
            wd_cgroup: if self.wd_cgroup >= 0 { Some(self.wd_cgroup) } else { None },
            wd_pkg_xml: if self.wd_pkg_xml >= 0 { Some(self.wd_pkg_xml) } else { None },
            wd_pkg_list: if self.wd_pkg_list >= 0 { Some(self.wd_pkg_list) } else { None },
            events_seen: self.events_seen,
            last_raw_mask: self.last_raw_mask,
            last_source: match self.last_source {
                Some(src) => Some(string_of(src.as_str())),
                None => None,
            },
            last_foreground_pid: self.last_foreground_pid,
            package_cache_dirty: self.packages_dirty,
            last_exception: match &self.last_exception {
                Some(e) => Some(e.clone()),
                None => None,
            },
        }
    }

    /// Handles one record: counts it and notes its mask and source; a queue
    /// overflow marks the packages stale, an unmount is reported, a dropped
    /// watch of a known file asks to be registered again; otherwise a
    /// replaced watch target is reported, a change of a package file marks
    /// the packages stale and is reported, and a modification of the
    /// top-app cgroup is flagged for a read of the cgroup.
    pub fn handle_decoded_event(&mut self, event: &InotifyEvent) -> (step: InotifyStep)
        ensures
            final(self).events_seen == saturating_inc(old(self).events_seen),
            final(self).last_raw_mask == Some(event.mask),
            final(self).last_source == Some(old(self).source_of(event.wd)),
            final(self).fd == old(self).fd,
            final(self).wd_cgroup == old(self).wd_cgroup,
            final(self).wd_pkg_xml == old(self).wd_pkg_xml,
            final(self).wd_pkg_list == old(self).wd_pkg_list,
            final(self).last_foreground_pid == old(self).last_foreground_pid,
            ({
                let src = old(self).source_of(event.wd);
                let m = event.mask;
                if m & QUEUE_OVERFLOW_MASK != 0 {
                    &&& final(self).packages_dirty
                    &&& final(self).last_exception is Some && final(self).last_exception->0@ == "queue_overflow"@
                    &&& step matches InotifyStep::Done { events, cgroup_modified }
                    &&& !cgroup_modified
                    &&& notices_view(events@) == seq![NoticeView::Exceptional(src, "queue_overflow"@, m)]
                } else if m & UNMOUNT_MASK != 0 {
                    &&& final(self).packages_dirty == old(self).packages_dirty
                    &&& final(self).last_exception is Some && final(self).last_exception->0@ == "unmount"@
                    &&& step matches InotifyStep::Done { events, cgroup_modified }
                    &&& !cgroup_modified
                    &&& notices_view(events@) == seq![NoticeView::Exceptional(src, "unmount"@, m)]
                } else if m & IGNORED_MASK != 0 {
                    &&& final(self).packages_dirty == old(self).packages_dirty
                    &&& if src is Unknown {
                        &&& final(self).last_exception is Some && final(self).last_exception->0@ == "ignored"@
                        &&& step matches InotifyStep::Done { events, cgroup_modified }
                        &&& !cgroup_modified
                        &&& notices_view(events@) == seq![NoticeView::Exceptional(src, "ignored"@, m)]
                    } else {
                        &&& final(self).last_exception == old(self).last_exception
                        &&& step == (InotifyStep::Rewatch { source: src, mask: m })
                    }
                } else {
                    let replaced = m & (DELETE_SELF_MASK | MOVE_SELF_MASK) != 0;
                    let first: Seq<NoticeView> = if replaced {
                        seq![NoticeView::Exceptional(src, "watch_target_replaced"@, m)]
                    } else {
                        seq![]
                    };
                    let second: Seq<NoticeView> = match src {
                        InotifySource::PackagesXml => seq![NoticeView::Packages(PACKAGES_XML_PATH@)],
                        InotifySource::PackagesList => seq![NoticeView::Packages(PACKAGES_LIST_PATH@)],
                        _ => seq![],
                    };
                    &&& (if replaced {
                        final(self).last_exception is Some && final(self).last_exception->0@ == "watch_target_replaced"@
                    } else {
                        final(self).last_exception == old(self).last_exception
                    })
                    &&& final(self).packages_dirty == (old(self).packages_dirty || src is PackagesXml
                        || src is PackagesList)
                    &&& step matches InotifyStep::Done { events, cgroup_modified }
                    &&& cgroup_modified == (src is Cgroup && m & MODIFY_MASK != 0)
                    &&& notices_view(events@) == first + second
                }
            }),
    {
        self.events_seen = if self.events_seen == u64::MAX { self.events_seen } else { self.events_seen + 1 };
        self.last_raw_mask = Some(event.mask);
        let source = self.source_for_wd(event.wd);
        self.last_source = Some(source);
        let m = event.mask;
        let mut events: Vec<PreloadInotifyEvent> = Vec::new();
        if m & QUEUE_OVERFLOW_MASK != 0 {
            self.packages_dirty = true;
            self.last_exception = Some(string_of("queue_overflow"));
            events.push(PreloadInotifyEvent::Exceptional { source, description: "queue_overflow", mask: m });
            assert(notices_view(events@) =~= seq![NoticeView::Exceptional(source, "queue_overflow"@, m)]);
            return InotifyStep::Done { events, cgroup_modified: false };
        }
        if m & UNMOUNT_MASK != 0 {
            self.last_exception = Some(string_of("unmount"));
            events.push(PreloadInotifyEvent::Exceptional { source, description: "unmount", mask: m });
            assert(notices_view(events@) =~= seq![NoticeView::Exceptional(source, "unmount"@, m)]);
            return InotifyStep::Done { events, cgroup_modified: false };
        }
        if m & IGNORED_MASK != 0 {
            if source == InotifySource::Unknown {
                self.last_exception = Some(string_of("ignored"));
                events.push(PreloadInotifyEvent::Exceptional { source, description: "ignored", mask: m });
                assert(notices_view(events@) =~= seq![NoticeView::Exceptional(source, "ignored"@, m)]);
                return InotifyStep::Done { events, cgroup_modified: false };
            }
            return InotifyStep::Rewatch { source, mask: m };
        }
        let ghost first: Seq<NoticeView> = seq![];
        if m & (DELETE_SELF_MASK | MOVE_SELF_MASK) != 0 {
            self.last_exception = Some(string_of("watch_target_replaced"));
            events.push(PreloadInotifyEvent::Exceptional { source, description: "watch_target_replaced", mask: m });
            proof {
                first = seq![NoticeView::Exceptional(source, "watch_target_replaced"@, m)];
            }
        }
        assert(notices_view(events@) =~= first);
        let mut cgroup_modified = false;
        let ghost before = events@;
        match source {
            InotifySource::PackagesXml => {
                self.packages_dirty = true;
                events.push(PreloadInotifyEvent::PackagesChanged { path: PACKAGES_XML_PATH });
                assert(notices_view(events@) =~= notices_view(before) + seq![NoticeView::Packages(PACKAGES_XML_PATH@)]);
            },
            InotifySource::PackagesList => {
                self.packages_dirty = true;
                events.push(PreloadInotifyEvent::PackagesChanged { path: PACKAGES_LIST_PATH });
                assert(notices_view(events@) =~= notices_view(before) + seq![NoticeView::Packages(PACKAGES_LIST_PATH@)]);
            },
            InotifySource::Cgroup => {
                cgroup_modified = m & MODIFY_MASK != 0;
                assert(notices_view(events@) =~= notices_view(before) + Seq::<NoticeView>::empty());
            },
            InotifySource::Unknown => {
                assert(notices_view(events@) =~= notices_view(before) + Seq::<NoticeView>::empty());
            },
        }
        InotifyStep::Done { events, cgroup_modified }
    }

    /// Reports a dropped watch once registering it again was tried:
    /// `new_wd` is the new descriptor, `None` when the attempt failed.
    pub fn rewatched(&mut self, source: InotifySource, mask: u32, new_wd: Option<i32>) -> (e: PreloadInotifyEvent)
        ensures
            match new_wd {
                Some(wd) => {
                    &&& final(self).wd_cgroup == (if source is Cgroup { wd } else { old(self).wd_cgroup })
                    &&& final(self).wd_pkg_xml == (if source is PackagesXml { wd } else { old(self).wd_pkg_xml })
                    &&& final(self).wd_pkg_list == (if source is PackagesList { wd } else { old(self).wd_pkg_list })
                },
                None => {
                    &&& final(self).wd_cgroup == old(self).wd_cgroup
                    &&& final(self).wd_pkg_xml == old(self).wd_pkg_xml
                    &&& final(self).wd_pkg_list == old(self).wd_pkg_list
                },
            },
            ({
                let d: Seq<char> = if new_wd is Some && !(source is Unknown) {
                    "ignored_reregistered"@
                } else {
                    "ignored"@
                };
                &&& notice_view(e) == NoticeView::Exceptional(source, d, mask)
                &&& final(self).last_exception is Some && final(self).last_exception->0@ == d
            }),
            final(self).fd == old(self).fd,
            final(self).events_seen == old(self).events_seen,
            final(self).last_raw_mask == old(self).last_raw_mask,
            final(self).last_source == old(self).last_source,
            final(self).last_foreground_pid == old(self).last_foreground_pid,
            final(self).packages_dirty == old(self).packages_dirty,
    {
        let registered = match new_wd {
            Some(wd) => match source {
                InotifySource::Cgroup => {
                    self.wd_cgroup = wd;
                    true
                },
                InotifySource::PackagesXml => {
                    self.wd_pkg_xml = wd;
                    true
                },
                InotifySource::PackagesList => {
                    self.wd_pkg_list = wd;
                    true
                },
                InotifySource::Unknown => false,
            },
            None => false,
        };
        let description: &'static str = if registered { "ignored_reregistered" } else { "ignored" };
        self.last_exception = Some(string_of(description));
        PreloadInotifyEvent::Exceptional { source, description, mask }
    }

    /// After a batch in which the top-app cgroup changed: the pid now in
    /// the foreground, reported when it differs from the last one.
    pub fn foreground_from_cgroup(&mut self, content: &str) -> (e: Option<PreloadInotifyEvent>)
        ensures
            match top_app_pid(content@) {
                Some(pid) => if old(self).last_foreground_pid != Some(pid) {
                    &&& final(self).last_foreground_pid == Some(pid)
                    &&& e is Some
                    &&& notice_view(e->0) == NoticeView::Foreground(old(self).last_foreground_pid, pid)
                } else {
                    e is None && final(self).last_foreground_pid == old(self).last_foreground_pid
                },
                None => e is None && final(self).last_foreground_pid == old(self).last_foreground_pid,
            },
            final(self).fd == old(self).fd,
            final(self).wd_cgroup == old(self).wd_cgroup,
            final(self).wd_pkg_xml == old(self).wd_pkg_xml,
            final(self).wd_pkg_list == old(self).wd_pkg_list,
            final(self).events_seen == old(self).events_seen,
            final(self).last_raw_mask == old(self).last_raw_mask,
            final(self).last_source == old(self).last_source,
            final(self).packages_dirty == old(self).packages_dirty,
            final(self).last_exception == old(self).last_exception,
    {
        match parse_top_app_pid(content) {
            Some(new_pid) => {
                let old_pid = self.last_foreground_pid;
                let same = match old_pid {
                    Some(p) => p == new_pid,
                    None => false,
                };
                if !same {
                    self.last_foreground_pid = Some(new_pid);
                    Some(PreloadInotifyEvent::ForegroundChanged { old_pid, new_pid })
                } else {
                    None
                }
            },
            None => None,
        }
    }
}

/// Where a batch of decoded records stopped.
pub enum BatchStep {
    /// Every record was handled; `cgroup_modified` tells whether any asked
    /// for a read of the top-app cgroup.
    Finished { cgroup_modified: bool },
    /// The record at `index` dropped the watch of a known file: register it
    /// again, report it with `rewatched`, and resume after `index`.
    Rewatch { index: usize, source: InotifySource, mask: u32, cgroup_modified: bool },
}

/// Whether a record asks for its watch to be registered again.
pub open spec fn asks_rewatch(p: PreloadInotify, e: InotifyEvent) -> bool {
    e.mask & QUEUE_OVERFLOW_MASK == 0 && e.mask & UNMOUNT_MASK == 0 && e.mask & IGNORED_MASK != 0
        && !(p.source_of(e.wd) is Unknown)
}

/// Whether a record asks for a read of the top-app cgroup.
pub open spec fn asks_cgroup_read(p: PreloadInotify, e: InotifyEvent) -> bool {
    e.mask & QUEUE_OVERFLOW_MASK == 0 && e.mask & UNMOUNT_MASK == 0 && e.mask & IGNORED_MASK == 0
        && p.source_of(e.wd) is Cgroup && e.mask & MODIFY_MASK != 0
}

/// The events one record that needs no new watch is reported as (see
/// `handle_decoded_event`).
pub open spec fn record_notices(p: PreloadInotify, e: InotifyEvent) -> Seq<NoticeView> {
    let src = p.source_of(e.wd);
    let m = e.mask;
    if m & QUEUE_OVERFLOW_MASK != 0 {
        seq![NoticeView::Exceptional(src, "queue_overflow"@, m)]
    } else if m & UNMOUNT_MASK != 0 {
        seq![NoticeView::Exceptional(src, "unmount"@, m)]
    } else if m & IGNORED_MASK != 0 {
        if src is Unknown {
            seq![NoticeView::Exceptional(src, "ignored"@, m)]
        } else {
            seq![]
        }
    } else {
        let first: Seq<NoticeView> = if m & (DELETE_SELF_MASK | MOVE_SELF_MASK) != 0 {
            seq![NoticeView::Exceptional(src, "watch_target_replaced"@, m)]
        } else {
            seq![]
        };
        let second: Seq<NoticeView> = match src {
            InotifySource::PackagesXml => seq![NoticeView::Packages(PACKAGES_XML_PATH@)],
            InotifySource::PackagesList => seq![NoticeView::Packages(PACKAGES_LIST_PATH@)],
            _ => seq![],
        };
        first + second
    }
}

/// The events of records `start..end`, in order.
pub open spec fn batch_notices(p: PreloadInotify, raw: Seq<InotifyEvent>, start: int, end: int) -> Seq<NoticeView>
    decreases end - start,
{
    if end <= start {
        seq![]
    } else {
        batch_notices(p, raw, start, end - 1) + record_notices(p, raw[end - 1])
    }
}

/// `n` counted up `k` times, stopping at the largest value.
pub open spec fn saturating_add_n(n: u64, k: nat) -> u64
    decreases k,
{
    if k == 0 {
        n
    } else {
        saturating_inc(saturating_add_n(n, (k - 1) as nat))
    }
}

impl PreloadInotify {
    /// Handles the decoded records from `start` on, one by one (see
    /// `handle_decoded_event`), adding their notices to `out`, until one
    /// asks for its watch to be registered again or none are left.
    /// `cgroup_modified` carries over whether an earlier part of the batch
    /// asked for a cgroup read.
    pub fn handle_decoded_events(
        &mut self,
        raw: &Vec<InotifyEvent>,
        start: usize,
        cgroup_modified: bool,
        out: &mut Vec<PreloadInotifyEvent>,
    ) -> (b: BatchStep)
        requires
            start <= raw@.len(),
        ensures
            final(self).fd == old(self).fd,
            final(self).wd_cgroup == old(self).wd_cgroup,
            final(self).wd_pkg_xml == old(self).wd_pkg_xml,
            final(self).wd_pkg_list == old(self).wd_pkg_list,
            final(self).last_foreground_pid == old(self).last_foreground_pid,
            old(out)@.len() <= final(out)@.len(),
            final(out)@.subrange(0, old(out)@.len() as int) == old(out)@,
            notices_view(final(out)@) == notices_view(old(out)@) + batch_notices(
                *old(self),
                raw@,
                start as int,
                match b {
                    BatchStep::Finished { .. } => raw@.len() as int,
                    BatchStep::Rewatch { index, .. } => index as int,
                },
            ),
            match b {
                BatchStep::Finished { cgroup_modified: c } => {
                    &&& forall|j: int| start <= j < raw@.len() ==> !asks_rewatch(*old(self), #[trigger] raw@[j])
                    &&& c == (cgroup_modified || exists|j: int|
                        start <= j < raw@.len() && #[trigger] asks_cgroup_read(*old(self), raw@[j]))
                    &&& final(self).events_seen == saturating_add_n(old(self).events_seen, (raw@.len() - start) as nat)
                },
                BatchStep::Rewatch { index, source, mask, cgroup_modified: c } => {
                    &&& start <= index < raw@.len()
                    &&& asks_rewatch(*old(self), raw@[index as int])
                    &&& source == old(self).source_of(raw@[index as int].wd)
                    &&& mask == raw@[index as int].mask
                    &&& forall|j: int| start <= j < index ==> !asks_rewatch(*old(self), #[trigger] raw@[j])
                    &&& c == (cgroup_modified || exists|j: int|
                        start <= j < index && #[trigger] asks_cgroup_read(*old(self), raw@[j]))
                    &&& final(self).events_seen == saturating_add_n(old(self).events_seen, (index + 1 - start) as nat)
                },
            },
    {
        let ghost p0 = *self;
        let ghost o0 = out@;
        let mut flag = cgroup_modified;
        let mut i = start;
        while i < raw.len()
            invariant
                p0 == *old(self),
                o0 == old(out)@,
                start <= i <= raw@.len(),
                self.fd == p0.fd,
                self.wd_cgroup == p0.wd_cgroup,
                self.wd_pkg_xml == p0.wd_pkg_xml,
                self.wd_pkg_list == p0.wd_pkg_list,
                self.last_foreground_pid == p0.last_foreground_pid,
                o0.len() <= out@.len(),
                out@.subrange(0, o0.len() as int) == o0,
                notices_view(out@) == notices_view(o0) + batch_notices(p0, raw@, start as int, i as int),
                forall|j: int| start <= j < i ==> !asks_rewatch(p0, #[trigger] raw@[j]),
                flag == (cgroup_modified || exists|j: int| start <= j < i && #[trigger] asks_cgroup_read(p0, raw@[j])),
                self.events_seen == saturating_add_n(p0.events_seen, (i - start) as nat),
            decreases raw@.len() - i,
        {
            let ghost before = out@;
            let e = &raw[i];
            match self.handle_decoded_event(e) {
                InotifyStep::Done { events, cgroup_modified: c } => {
                    let mut events = events;
                    let ghost ev = events@;
                    out.append(&mut events);
                    proof {
                        assert(out@.subrange(0, o0.len() as int) =~= before.subrange(0, o0.len() as int));
                        assert(notices_view(ev) == record_notices(p0, raw@[i as int]));
                        assert(notices_view(out@) =~= notices_view(before) + notices_view(ev));
                        assert(notices_view(out@) =~= notices_view(o0) + batch_notices(p0, raw@, start as int, i + 1));
                        assert(!asks_rewatch(p0, raw@[i as int]));
                        assert(c == asks_cgroup_read(p0, raw@[i as int]));
                    }
                    flag = flag || c;
                    proof {
                        assert(flag == (cgroup_modified || exists|j: int|
                            start <= j < i + 1 && #[trigger] asks_cgroup_read(p0, raw@[j]))) by {
                            if asks_cgroup_read(p0, raw@[i as int]) {
                                assert(start <= i < i + 1);
                            }
                        }
                    }
                },
                InotifyStep::Rewatch { source, mask } => {
                    return BatchStep::Rewatch { index: i, source, mask, cgroup_modified: flag };
                },
            }
            i = i + 1;
        }
        BatchStep::Finished { cgroup_modified: flag }
    }
}

} // verus!
