use vstd::prelude::*;
use crate::channel::{deliver, published, taken, ChannelId, Channels, Receiver, Slot, Subscription};
use crate::timer::{advanced, is_min_remaining, TimeListenerData, TimerSchedule};

verus! {

/// Why a segment recomputes.
#[derive(Debug)]
pub enum Trigger {
    /// The compositor reported a workspace change.
    WorkspaceChanged,
    /// The given number of milliseconds passed.
    TimePassed(u64),
    /// The file at the given path was modified.
    FileChange(String),
}

/// The compositor whose workspace events drive the workspace channel.
#[derive(Clone, Copy, Debug, PartialEq, Eq, Structural)]
pub enum WorkspaceListener {
    Hyprland,
    Sway,
}

/// The one workspace listener of the process.
#[derive(Clone, Copy, Debug, PartialEq, Eq, Structural)]
pub struct WorkspaceListenerData {
    pub listener: WorkspaceListener,
}

/// One watched path and the descriptor that the OS gave its watch.
pub struct FileWatch {
    pub path: String,
    pub watch: i32,
}

/// The one OS file-watch instance of the process, with its watched paths.
/// The `k`-th path publishes on channel `File(k)`.
pub struct FileChangeListenerData {
    pub watches: Vec<FileWatch>,
}

/// Why a registration was refused.
#[derive(Clone, Copy, Debug, PartialEq, Eq, Structural)]
pub enum ListenerError {
    /// A timer of zero milliseconds would never let its loop sleep.
    ZeroInterval,
    /// The path is not watched yet and no OS watch could be made for it.
    WatchUnavailable,
}

/// What the OS must do before a path can be registered.
#[derive(Clone, Copy, Debug, PartialEq, Eq, Structural)]
pub enum FileWatchStep {
    /// No watch instance exists yet: create it, then watch the path.
    CreateInstance,
    /// The instance exists but does not watch the path: add a watch.
    AddWatch,
    /// The path is watched already: its watch is shared, nothing is made.
    Shared,
}

/// Which drivers have subscribers and must run.
#[derive(Clone, Copy, Debug, PartialEq, Eq, Structural)]
pub struct StartPlan {
    pub timer: bool,
    pub file_change: bool,
    pub workspace: Option<WorkspaceListener>,
}

/// The watched paths, with their watch descriptors.
pub type FilesView = Option<Seq<(Seq<char>, i32)>>;

pub open spec fn is_watched(files: FilesView, p: Seq<char>) -> bool {
    files matches Some(ws) && exists|k: int| 0 <= k < ws.len() && (#[trigger] ws[k]).0 == p
}

pub open spec fn step_for(files: FilesView, p: Seq<char>) -> FileWatchStep {
    if files is None {
        FileWatchStep::CreateInstance
    } else if is_watched(files, p) {
        FileWatchStep::Shared
    } else {
        FileWatchStep::AddWatch
    }
}

/// The watched paths after registering `p` with the descriptor `w`: a path
/// that is watched already keeps its one watch.
pub open spec fn registered(files: FilesView, p: Seq<char>, w: i32) -> FilesView {
    if is_watched(files, p) {
        files
    } else {
        match files {
            Some(ws) => Some(ws.push((p, w))),
            None => Some(seq![(p, w)]),
        }
    }
}

pub open spec fn paths_unique(ws: Seq<(Seq<char>, i32)>) -> bool {
    forall|i: int, j: int| 0 <= i < ws.len() && 0 <= j < ws.len() && i != j ==> ws[i].0 != ws[j].0
}

/// Whether a pass of `slept` fires channel `c`.
pub open spec fn timer_fires(ts: Seq<TimeListenerData>, c: ChannelId, slept: nat) -> bool {
    c matches ChannelId::Timer(k) && k < ts.len() && ts[k as int].interval <= slept
}

/// Whether an OS event on the watch `w` fires channel `c`.
pub open spec fn file_fires(files: FilesView, c: ChannelId, w: i32) -> bool {
    c matches ChannelId::File(k) && files matches Some(ws) && k < ws.len() && ws[k as int].1 == w
}

/// The backend chosen from the two session markers; Hyprland's wins when
/// both are present.
pub open spec fn backend_for(hyprland: bool, sway: bool) -> Option<WorkspaceListener> {
    if hyprland {
        Some(WorkspaceListener::Hyprland)
    } else if sway {
        Some(WorkspaceListener::Sway)
    } else {
        None
    }
}

/// Picks the workspace backend from the session markers that are present.
pub fn select_backend(hyprland: bool, sway: bool) -> (r: Option<WorkspaceListener>)
    ensures
        r == backend_for(hyprland, sway),
{
    if hyprland {
        Some(WorkspaceListener::Hyprland)
    } else if sway {
        Some(WorkspaceListener::Sway)
    } else {
        None
    }
}

/// The listener registry: every subscription of every trigger kind, the
/// drivers' state, and the channels that the drivers publish on.
pub struct Listeners {
    channels: Channels,
    workspace_listener: Option<WorkspaceListenerData>,
    file_change_listener: Option<FileChangeListenerData>,
    time_passed_listener: TimerSchedule,
}

impl Listeners {
    /// Every subscriber, with the channel it listens on and its slot.
    pub closed spec fn receivers(&self) -> Seq<Receiver> {
        self.channels@
    }

    /// The timer entries; entry `i` publishes on `Timer(i)`.
    pub closed spec fn timers(&self) -> Seq<TimeListenerData> {
        self.time_passed_listener@
    }

    /// The watched paths, or `None` while no file-watch instance exists.
    pub closed spec fn files(&self) -> FilesView {
        match self.file_change_listener {
            Some(d) => Some(d.watches@.map_values(|w: FileWatch| (w.path@, w.watch))),
            None => None,
        }
    }

    /// The workspace backend, once a workspace listener exists.
    pub closed spec fn workspace(&self) -> Option<WorkspaceListener> {
        match self.workspace_listener {
            Some(d) => Some(d.listener),
            None => None,
        }
    }

    /// Whether channel `c` is one of this registry's: a driver entry owns
    /// it, or it is the silent channel, which no driver publishes on.
    pub open spec fn owns(&self, c: ChannelId) -> bool {
        match c {
            ChannelId::Timer(k) => k < self.timers().len(),
            ChannelId::File(k) => self.files() matches Some(ws) && k < ws.len(),
            ChannelId::Workspace => self.workspace() is Some,
            ChannelId::Silent => true,
        }
    }

    pub open spec fn wf(&self) -> bool {
        &&& forall|i: int| 0 <= i < self.timers().len() ==> (#[trigger] self.timers()[i]).wf()
        &&& self.files() matches Some(ws) ==> ws.len() > 0 && paths_unique(ws)
        &&& forall|i: int| 0 <= i < self.receivers().len() ==> self.owns(#[trigger] self.receivers()[i].channel)
    }

    pub fn new() -> (r: Listeners)
        ensures
            r.wf(),
            r.receivers() == Seq::<Receiver>::empty(),
            r.timers() == Seq::<TimeListenerData>::empty(),
            r.files() is None,
            r.workspace() is None,
    {
        Listeners {
            channels: Channels::new(),
            workspace_listener: None,
            file_change_listener: None,
            time_passed_listener: TimerSchedule::new(),
        }
    }

    /// Adds a timer subscription with its own entry (equal intervals are
    /// never merged). A zero interval is refused.
    pub fn new_time_passed_listener(&mut self, interval: u64) -> (r: Result<Subscription, ListenerError>)
        requires
            old(self).wf(),
        ensures
            final(self).wf(),
            interval == 0 ==> r == Err::<Subscription, ListenerError>(ListenerError::ZeroInterval)
                && *final(self) == *old(self),
            interval > 0 ==> r == Ok::<Subscription, ListenerError>(
                Subscription { index: old(self).receivers().len() as usize },
            ),
            interval > 0 ==> final(self).receivers() == old(self).receivers().push(
                Receiver { channel: ChannelId::Timer(old(self).timers().len() as usize), slot: Slot::Empty },
            ),
            interval > 0 ==> final(self).timers().len() == old(self).timers().len() + 1,
            interval > 0 ==> final(self).timers().subrange(0, old(self).timers().len() as int)
                == old(self).timers(),
            interval > 0 ==> final(self).timers().last().interval == interval
                && final(self).timers().last().original_interval == interval
                && final(self).timers().last().fires@ == 0
                && final(self).timers().last().elapsed@ == 0,
            final(self).files() == old(self).files(),
            final(self).workspace() == old(self).workspace(),
    {
        if interval == 0 {
            return Err(ListenerError::ZeroInterval);
        }
        let k = self.time_passed_listener.add(interval);
        let s = self.channels.subscribe(ChannelId::Timer(k));
        proof {
            let old_ts = old(self).timers();
            assert forall|i: int| 0 <= i < self.receivers().len() implies self.owns(
                #[trigger] self.receivers()[i].channel,
            ) by {
                if i < old(self).receivers().len() {
                    assert(old(self).owns(old(self).receivers()[i].channel));
                }
            }
            assert forall|i: int| 0 <= i < self.timers().len() implies (#[trigger] self.timers()[i]).wf() by {
                if i < old_ts.len() {
                    assert(self.timers().subrange(0, old_ts.len() as int)[i] == self.timers()[i]);
                    assert(old_ts[i].wf());
                }
            }
        }
        Ok(s)
    }

    /// What the OS must do before `path` can be registered.
    pub fn file_watch_step(&self, path: &String) -> (r: FileWatchStep)
        ensures
            r == step_for(self.files(), path@),
    {
        match &self.file_change_listener {
            None => FileWatchStep::CreateInstance,
            Some(d) => {
                if let Some(k) = Self::find_path(&d.watches, path) {
                    proof {
                        let ws = self.files()->0;
                        assert(ws[k as int].0 == path@);
                    }
                    FileWatchStep::Shared
                } else {
                    proof {
                        assert(!is_watched(self.files(), path@)) by {
                            if is_watched(self.files(), path@) {
                                let ws = self.files()->0;
                                let k = choose|k: int| 0 <= k < ws.len() && (#[trigger] ws[k]).0 == path@;
                                assert(d.watches@[k].path@ == path@);
                            }
                        }
                    }
                    FileWatchStep::AddWatch
                }
            },
        }
    }

    /// Adds a subscription to the changes of `path`. A path that is watched
    /// already shares its watch and its channel; otherwise `watch` is the
    /// descriptor of the OS watch just made for it, and without one the
    /// registration fails.
    pub fn new_file_change_listener(&mut self, path: &String, watch: Option<i32>) -> (r: Result<
        Subscription,
        ListenerError,
    >)
        requires
            old(self).wf(),
        ensures
            final(self).wf(),
            final(self).timers() == old(self).timers(),
            final(self).workspace() == old(self).workspace(),
            !is_watched(old(self).files(), path@) && watch is None ==> r == Err::<
                Subscription,
                ListenerError,
            >(ListenerError::WatchUnavailable) && *final(self) == *old(self),
            is_watched(old(self).files(), path@) || watch is Some ==> {
                &&& r == Ok::<Subscription, ListenerError>(
                    Subscription { index: old(self).receivers().len() as usize },
                )
                &&& final(self).files() == registered(old(self).files(), path@, watch->0)
                &&& final(self).receivers().len() == old(self).receivers().len() + 1
                &&& final(self).receivers().subrange(0, old(self).receivers().len() as int)
                    == old(self).receivers()
                &&& final(self).receivers().last().slot == Slot::Empty
                &&& final(self).receivers().last().channel matches ChannelId::File(k) && k
                    < final(self).files()->0.len() && final(self).files()->0[k as int].0 == path@
            },
    {
        let ghost old_files = self.files();
        let found = match &self.file_change_listener {
            Some(d) => Self::find_path(&d.watches, path),
            None => None,
        };
        proof {
            if found is None && is_watched(old_files, path@) {
                let ws = old_files->0;
                let k = choose|k: int| 0 <= k < ws.len() && (#[trigger] ws[k]).0 == path@;
                assert(self.file_change_listener->0.watches@[k].path@ == path@);
            }
        }
        let k = match found {
            Some(k) => {
                proof {
                    assert(old_files->0[k as int].0 == path@);
                }
                k
            },
            None => {
                let w = match watch {
                    Some(w) => w,
                    None => {
                        return Err(ListenerError::WatchUnavailable);
                    },
                };
                let entry = FileWatch { path: path.clone(), watch: w };
                match &mut self.file_change_listener {
                    Some(d) => {
                        let k = d.watches.len();
                        d.watches.push(entry);
                        k
                    },
                    None => {
                        let mut watches: Vec<FileWatch> = Vec::new();
                        watches.push(entry);
                        self.file_change_listener = Some(FileChangeListenerData { watches });
                        0
                    },
                }
            },
        };
        let s = self.channels.subscribe(ChannelId::File(k));
        proof {
            let nf = self.files()->0;
            assert(self.timers() == old(self).timers());
            if found is None {
                match old_files {
                    Some(ws) => {
                        assert(nf =~= ws.push((path@, watch->0)));
                        assert forall|i: int| 0 <= i < ws.len() implies #[trigger] ws[i].0 != path@ by {
                            assert(ws[i].0 == old(self).file_change_listener->0.watches@[i].path@);
                        }
                        assert(paths_unique(nf));
                    },
                    None => {
                        assert(nf =~= seq![(path@, watch->0)]);
                    },
                }
            } else {
                assert(self.files() == old_files);
            }
            assert(self.receivers().subrange(0, old(self).receivers().len() as int) =~= old(self).receivers());
            assert forall|i: int| 0 <= i < self.receivers().len() implies self.owns(
                #[trigger] self.receivers()[i].channel,
            ) by {
                if i < old(self).receivers().len() {
                    assert(old(self).owns(old(self).receivers()[i].channel));
                }
            }
        }
        Ok(s)
    }

    /// Adds a subscription to workspace changes. The first one made while a
    /// backend is present creates the process's one workspace listener; all
    /// later ones share its channel. With no backend the subscription is on
    /// the silent channel, which never fires.
    pub fn new_workspace_listener(&mut self, backend: Option<WorkspaceListener>) -> (s: Subscription)
        requires
            old(self).wf(),
        ensures
            final(self).wf(),
            s.index == old(self).receivers().len(),
            final(self).workspace() == (if old(self).workspace() is Some {
                old(self).workspace()
            } else {
                backend
            }),
            final(self).receivers() == old(self).receivers().push(
                Receiver {
                    channel: if final(self).workspace() is Some {
                        ChannelId::Workspace
                    } else {
                        ChannelId::Silent
                    },
                    slot: Slot::Empty,
                },
            ),
            final(self).timers() == old(self).timers(),
            final(self).files() == old(self).files(),
    {
        if self.workspace_listener.is_none() {
            if let Some(listener) = backend {
                self.workspace_listener = Some(WorkspaceListenerData { listener });
            }
        }
        let channel = if self.workspace_listener.is_some() {
            ChannelId::Workspace
        } else {
            ChannelId::Silent
        };
        let s = self.channels.subscribe(channel);
        proof {
            assert(self.timers() == old(self).timers());
            assert(self.files() == old(self).files());
            assert forall|i: int| 0 <= i < self.receivers().len() implies self.owns(
                #[trigger] self.receivers()[i].channel,
            ) by {
                if i < old(self).receivers().len() {
                    assert(old(self).owns(old(self).receivers()[i].channel));
                }
            }
        }
        s
    }

    /// Which drivers must run: each one that has at least one entry.
    pub fn start_listeners(&self) -> (r: StartPlan)
        requires
            self.wf(),
        ensures
            r.timer == (self.timers().len() > 0),
            r.file_change == (self.files() is Some),
            r.file_change ==> self.files()->0.len() > 0,
            r.workspace == self.workspace(),
    {
        StartPlan {
            timer: self.time_passed_listener.len() > 0,
            file_change: self.file_change_listener.is_some(),
            workspace: match self.workspace_listener {
                Some(d) => Some(d.listener),
                None => None,
            },
        }
    }

    /// How long the timer loop sleeps next, or nothing without timers.
    pub fn next_sleep(&self) -> (r: Option<u64>)
        ensures
            r is None <==> self.timers().len() == 0,
            r matches Some(m) ==> is_min_remaining(self.timers(), m),
    {
        self.time_passed_listener.next_sleep()
    }

    /// One pass of the timer loop after sleeping `slept`, at most the
    /// earliest deadline: the entries that are due fire and are reset, the
    /// others count down, and the channel of each entry that fired is
    /// published.
    pub fn time_passed(&mut self, slept: u64)
        requires
            old(self).wf(),
            forall|i: int| 0 <= i < old(self).timers().len() ==> slept <= #[trigger] old(self).timers()[i].interval,
        ensures
            final(self).wf(),
            final(self).timers().len() == old(self).timers().len(),
            forall|i: int|
                0 <= i < old(self).timers().len() ==> advanced(
                    old(self).timers()[i],
                    #[trigger] final(self).timers()[i],
                    slept as nat,
                ),
            final(self).receivers().len() == old(self).receivers().len(),
            forall|i: int|
                0 <= i < old(self).receivers().len() ==> #[trigger] final(self).receivers()[i] == deliver(
                    old(self).receivers()[i],
                    timer_fires(old(self).timers(), old(self).receivers()[i].channel, slept as nat),
                ),
            final(self).files() == old(self).files(),
            final(self).workspace() == old(self).workspace(),
    {
        let ghost ts = self.timers();
        let fired = self.time_passed_listener.advance(slept);
        let ghost start = self.channels@;
        let ghost ts2 = self.timers();
        let mut k: usize = 0;
        while k < fired.len()
            invariant
                0 <= k <= fired@.len(),
                self.timers() == ts2,
                self.files() == old(self).files(),
                self.workspace() == old(self).workspace(),
                start == old(self).receivers(),
                fired@.len() == ts.len(),
                forall|j: int| 0 <= j < ts.len() ==> #[trigger] fired@[j] == (ts[j].interval <= slept),
                self.channels@.len() == start.len(),
                forall|i: int|
                    0 <= i < start.len() ==> #[trigger] self.channels@[i] == deliver(
                        start[i],
                        start[i].channel matches ChannelId::Timer(j) && j < k && fired@[j as int],
                    ),
            decreases fired@.len() - k,
        {
            if fired[k] {
                let ghost before = self.channels@;
                self.channels.publish(ChannelId::Timer(k));
                assert forall|i: int| 0 <= i < start.len() implies #[trigger] self.channels@[i] == deliver(
                    start[i],
                    start[i].channel matches ChannelId::Timer(j) && j < k + 1 && fired@[j as int],
                ) by {
                    assert(self.channels@[i] == deliver(before[i], before[i].channel == ChannelId::Timer(k)));
                }
            } else {
                assert forall|i: int| 0 <= i < start.len() implies #[trigger] self.channels@[i] == deliver(
                    start[i],
                    start[i].channel matches ChannelId::Timer(j) && j < k + 1 && fired@[j as int],
                ) by {
                    if start[i].channel == ChannelId::Timer(k) {
                        assert(!fired@[k as int]);
                    }
                }
            }
            k = k + 1;
        }
        proof {
            assert forall|i: int| 0 <= i < self.receivers().len() implies self.owns(
                #[trigger] self.receivers()[i].channel,
            ) by {
                assert(old(self).owns(old(self).receivers()[i].channel));
            }
            assert forall|i: int| 0 <= i < start.len() implies #[trigger] self.channels@[i] == deliver(
                start[i],
                timer_fires(ts, start[i].channel, slept as nat),
            ) by {
                assert(self.channels@[i] == deliver(
                    start[i],
                    start[i].channel matches ChannelId::Timer(j) && j < fired@.len() && fired@[j as int],
                ));
            }
        }
    }

    /// An OS change event on the watch `watch`: the channel of every path
    /// that has that watch is published, and no other.
    pub fn file_changed(&mut self, watch: i32)
        requires
            old(self).wf(),
        ensures
            final(self).wf(),
            final(self).receivers().len() == old(self).receivers().len(),
            forall|i: int|
                0 <= i < old(self).receivers().len() ==> #[trigger] final(self).receivers()[i] == deliver(
                    old(self).receivers()[i],
                    file_fires(old(self).files(), old(self).receivers()[i].channel, watch),
                ),
            final(self).timers() == old(self).timers(),
            final(self).files() == old(self).files(),
            final(self).workspace() == old(self).workspace(),
    {
        let ghost files = self.files();
        let ghost start = self.channels@;
        let n: usize = match &self.file_change_listener {
            Some(d) => d.watches.len(),
            None => 0,
        };
        let mut k: usize = 0;
        while k < n
            invariant
                0 <= k <= n,
                files == self.files(),
                self.timers() == old(self).timers(),
                self.workspace() == old(self).workspace(),
                forall|i: int| 0 <= i < start.len() ==> old(self).owns(#[trigger] start[i].channel),
                files is None ==> n == 0,
                files matches Some(ws) ==> n == ws.len(),
                self.channels@.len() == start.len(),
                forall|i: int|
                    0 <= i < start.len() ==> #[trigger] self.channels@[i] == deliver(
                        start[i],
                        file_fires(files, start[i].channel, watch) && start[i].channel->File_0 < k,
                    ),
            decreases n - k,
        {
            let hit = match &self.file_change_listener {
                Some(d) => d.watches[k].watch == watch,
                None => false,
            };
            proof {
                assert(hit == (files->0[k as int].1 == watch));
            }
            let ghost before = self.channels@;
            if hit {
                self.channels.publish(ChannelId::File(k));
                assert forall|i: int| 0 <= i < start.len() implies #[trigger] self.channels@[i] == deliver(
                    start[i],
                    file_fires(files, start[i].channel, watch) && start[i].channel->File_0 < k + 1,
                ) by {
                    assert(self.channels@[i] == deliver(before[i], before[i].channel == ChannelId::File(k)));
                }
            } else {
                assert forall|i: int| 0 <= i < start.len() implies #[trigger] self.channels@[i] == deliver(
                    start[i],
                    file_fires(files, start[i].channel, watch) && start[i].channel->File_0 < k + 1,
                ) by {
                    assert(before[i] == self.channels@[i]);
                }
            }
            k = k + 1;
        }
        proof {
            assert forall|i: int| 0 <= i < self.receivers().len() implies self.owns(
                #[trigger] self.receivers()[i].channel,
            ) by {
                assert(old(self).owns(old(self).receivers()[i].channel));
            }
            assert forall|i: int| 0 <= i < start.len() implies #[trigger] self.channels@[i] == deliver(
                start[i],
                file_fires(files, start[i].channel, watch),
            ) by {
                if file_fires(files, start[i].channel, watch) {
                    assert(start[i].channel->File_0 < n);
                }
            }
        }
    }

    /// A change event from the compositor: the workspace channel is
    /// published, when a workspace listener exists.
    pub fn workspace_changed(&mut self)
        requires
            old(self).wf(),
        ensures
            final(self).wf(),
            final(self).receivers() == (if old(self).workspace() is Some {
                published(old(self).receivers(), ChannelId::Workspace)
            } else {
                old(self).receivers()
            }),
            final(self).timers() == old(self).timers(),
            final(self).files() == old(self).files(),
            final(self).workspace() == old(self).workspace(),
    {
        if self.workspace_listener.is_some() {
            self.channels.publish(ChannelId::Workspace);
            proof {
                assert forall|i: int| 0 <= i < self.receivers().len() implies self.owns(
                    #[trigger] self.receivers()[i].channel,
                ) by {
                    assert(old(self).owns(old(self).receivers()[i].channel));
                }
            }
        }
    }

    /// Reads the slot of `s`: true when a notification was pending, which is
    /// then consumed.
    pub fn try_recv(&mut self, s: &Subscription) -> (r: bool)
        requires
            old(self).wf(),
        ensures
            final(self).wf(),
            r == (s.index < old(self).receivers().len() && old(self).receivers()[s.index as int].slot
                == Slot::Pending),
            final(self).receivers() == taken(old(self).receivers(), s.index as int),
            final(self).timers() == old(self).timers(),
            final(self).files() == old(self).files(),
            final(self).workspace() == old(self).workspace(),
    {
        let r = self.channels.try_recv(s);
        proof {
            assert(self.timers() == old(self).timers());
            assert(self.files() == old(self).files());
            assert forall|i: int| 0 <= i < self.receivers().len() implies self.owns(
                #[trigger] self.receivers()[i].channel,
            ) by {
                assert(old(self).owns(old(self).receivers()[i].channel));
            }
        }
        r
    }

    /// Whether `s` holds a notification that it has not read.
    pub fn is_pending(&self, s: &Subscription) -> (r: bool)
        ensures
            r == (s.index < self.receivers().len() && self.receivers()[s.index as int].slot
                == Slot::Pending),
    {
        self.channels.is_pending(s)
    }

    /// Drops the subscription `s`: nothing is delivered to it any more. The
    /// drivers keep running for the process's lifetime.
    pub fn unsubscribe(&mut self, s: &Subscription)
        requires
            old(self).wf(),
        ensures
            final(self).wf(),
            final(self).receivers() == (if s.index < old(self).receivers().len() {
                old(self).receivers().update(
                    s.index as int,
                    Receiver {
                        channel: old(self).receivers()[s.index as int].channel,
                        slot: Slot::Closed,
                    },
                )
            } else {
                old(self).receivers()
            }),
            final(self).timers() == old(self).timers(),
            final(self).files() == old(self).files(),
            final(self).workspace() == old(self).workspace(),
    {
        self.channels.close(s);
        proof {
            assert(self.timers() == old(self).timers());
            assert(self.files() == old(self).files());
            assert forall|i: int| 0 <= i < self.receivers().len() implies self.owns(
                #[trigger] self.receivers()[i].channel,
            ) by {
                assert(old(self).owns(old(self).receivers()[i].channel));
            }
        }
    }

    /// Subscribes to `trigger`. For a file trigger, `watch` is the OS watch
    /// made for the path when `file_watch_step` asked for one; for a
    /// workspace trigger, `backend` is the compositor that was detected.
    pub fn subscribe(
        &mut self,
        trigger: &Trigger,
        watch: Option<i32>,
        backend: Option<WorkspaceListener>,
    ) -> (r: Result<Subscription, ListenerError>)
        requires
            old(self).wf(),
        ensures
            final(self).wf(),
            r is Ok ==> r == Ok::<Subscription, ListenerError>(
                Subscription { index: old(self).receivers().len() as usize },
            ) && final(self).receivers().len() == old(self).receivers().len() + 1
                && final(self).receivers().subrange(0, old(self).receivers().len() as int)
                == old(self).receivers() && final(self).receivers().last().slot == Slot::Empty,
            r is Err ==> *final(self) == *old(self),
            match *trigger {
                Trigger::TimePassed(i) => {
                    &&& r is Ok <==> i > 0
                    &&& r is Err ==> r == Err::<Subscription, ListenerError>(ListenerError::ZeroInterval)
                    &&& r is Ok ==> final(self).timers().len() == old(self).timers().len() + 1
                        && final(self).timers().subrange(0, old(self).timers().len() as int)
                        == old(self).timers() && final(self).timers().last().interval == i
                        && final(self).timers().last().original_interval == i
                        && final(self).timers().last().fires@ == 0
                        && final(self).timers().last().elapsed@ == 0
                        && final(self).receivers().last().channel == ChannelId::Timer(
                        old(self).timers().len() as usize,
                    )
                    &&& final(self).files() == old(self).files()
                    &&& final(self).workspace() == old(self).workspace()
                },
                Trigger::FileChange(p) => {
                    &&& r is Ok <==> (is_watched(old(self).files(), p@) || watch is Some)
                    &&& r is Err ==> r == Err::<Subscription, ListenerError>(ListenerError::WatchUnavailable)
                    &&& final(self).timers() == old(self).timers()
                    &&& final(self).workspace() == old(self).workspace()
                    &&& r is Ok ==> final(self).files() == registered(old(self).files(), p@, watch->0)
                    &&& r is Ok ==> (final(self).receivers().last().channel matches ChannelId::File(k)
                        && k < final(self).files()->0.len() && final(self).files()->0[k as int].0 == p@)
                },
                Trigger::WorkspaceChanged => {
                    &&& r is Ok
                    &&& final(self).workspace() == (if old(self).workspace() is Some {
                        old(self).workspace()
                    } else {
                        backend
                    })
                    &&& final(self).receivers().last().channel == (if final(self).workspace() is Some {
                        ChannelId::Workspace
                    } else {
                        ChannelId::Silent
                    })
                    &&& final(self).timers() == old(self).timers()
                    &&& final(self).files() == old(self).files()
                },
            },
    {
        match trigger {
            Trigger::TimePassed(i) => {
                let r = self.new_time_passed_listener(*i);
                proof {
                    if r is Ok {
                        assert(self.receivers().subrange(0, old(self).receivers().len() as int)
                            =~= old(self).receivers());
                    }
                }
                r
            },
            Trigger::FileChange(p) => {
                let r = self.new_file_change_listener(p, watch);
                proof {
                    if r is Ok {
                        assert(self.receivers().last() == self.receivers()[old(self).receivers().len() as int]);
                    }
                }
                r
            },
            Trigger::WorkspaceChanged => {
                let s = self.new_workspace_listener(backend);
                proof {
                    assert(self.receivers().subrange(0, old(self).receivers().len() as int)
                        =~= old(self).receivers());
                }
                Ok(s)
            },
        }
    }

    /// The position of `path` among the watched paths.
    fn find_path(watches: &Vec<FileWatch>, path: &String) -> (r: Option<usize>)
        ensures
            r matches Some(k) ==> k < watches@.len() && watches@[k as int].path@ == path@,
            r is None ==> forall|k: int| 0 <= k < watches@.len() ==> (#[trigger] watches@[k]).path@ != path@,
    {
        let mut k: usize = 0;
        while k < watches.len()
            invariant
                0 <= k <= watches@.len(),
                forall|j: int| 0 <= j < k ==> (#[trigger] watches@[j]).path@ != path@,
            decreases watches@.len() - k,
        {
            if watches[k].path == *path {
                return Some(k);
            }
            k = k + 1;
        }
        None
    }
}

/// One OS watch per path: once `p` is registered, registering it again
/// asks the OS for nothing and leaves the watched paths as they are, and
/// `p` stands among them exactly once.
pub proof fn lemma_one_watch_per_path(files: FilesView, p: Seq<char>, w1: i32, w2: i32)
    requires
        files matches Some(ws) ==> paths_unique(ws),
    ensures
        is_watched(registered(files, p, w1), p),
        paths_unique(registered(files, p, w1)->0),
        step_for(registered(files, p, w1), p) == FileWatchStep::Shared,
        registered(registered(files, p, w1), p, w2) == registered(files, p, w1),
{
    let r = registered(files, p, w1);
    if !is_watched(files, p) {
        let ws2 = r->0;
        assert(ws2[ws2.len() - 1].0 == p);
        match files {
            Some(ws) => {
                assert forall|i: int, j: int|
                    0 <= i < ws2.len() && 0 <= j < ws2.len() && i != j implies ws2[i].0 != ws2[j].0 by {
                    if i < ws.len() && j < ws.len() {
                    } else if i < ws.len() {
                        assert(ws[i] == ws2[i]);
                    } else if j < ws.len() {
                        assert(ws[j] == ws2[j]);
                    }
                }
            },
            None => {},
        }
    }
}

/// The silent channel never fires: no timer pass, no file event and no
/// workspace event publishes on it.
pub proof fn lemma_silent_never_fires(
    ts: Seq<TimeListenerData>,
    files: FilesView,
    rs: Seq<Receiver>,
    slept: nat,
    w: i32,
    i: int,
)
    requires
        0 <= i < rs.len(),
        rs[i].channel == ChannelId::Silent,
    ensures
        deliver(rs[i], timer_fires(ts, rs[i].channel, slept)) == rs[i],
        deliver(rs[i], file_fires(files, rs[i].channel, w)) == rs[i],
        published(rs, ChannelId::Workspace)[i] == rs[i],
{
}

/// No drift in a running registry: every timer entry has fired exactly
/// `elapsed / interval` times, where `elapsed` is the time that the timer
/// loop has passed since the entry was registered.
pub proof fn lemma_timers_on_cadence(reg: &Listeners, i: int)
    requires
        reg.wf(),
        0 <= i < reg.timers().len(),
    ensures
        reg.timers()[i].fires@ == reg.timers()[i].elapsed@ / (reg.timers()[i].original_interval as nat),
{
    crate::timer::lemma_fire_count(reg.timers()[i]);
}

} // verus!
