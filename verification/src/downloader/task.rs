//! Download tasks: their control state and the registry that the commands
//! and the download engine share.
use vstd::prelude::*;
use vstd::hash_map::StringHashMap;
use crate::text::{chars_of, concat, string_of};

verus! {

/// What the user asked a task to do.
#[derive(Debug, Clone, Copy, PartialEq, Eq, Structural)]
pub enum TaskControlState {
    Running,
    Paused,
    Cancelled,
}

/// What the registry holds of a task.
#[derive(Debug, Clone)]
pub struct TaskControlInfo {
    pub state: TaskControlState,
    pub title: String,
    pub save_dir: String,
    pub max_concurrent: usize,
    pub resolution: String,
    /// Instance generation: every start/resume bumps it, so a superseded
    /// download task can detect that a newer instance took over and must
    /// stop emitting events / touching output files.
    pub generation: u64,
}

pub struct TaskView {
    pub state: TaskControlState,
    pub title: Seq<char>,
    pub save_dir: Seq<char>,
    pub max_concurrent: usize,
    pub resolution: Seq<char>,
    pub generation: u64,
}

impl View for TaskControlInfo {
    type V = TaskView;

    open spec fn view(&self) -> TaskView {
        TaskView {
            state: self.state,
            title: self.title@,
            save_dir: self.save_dir@,
            max_concurrent: self.max_concurrent,
            resolution: self.resolution@,
            generation: self.generation,
        }
    }
}

/// The tasks by URL, and the last generation handed out.
pub struct RegistryView {
    pub tasks: Map<Seq<char>, TaskView>,
    pub last_generation: u64,
}

/// The settings a paused or failed task is resumed with.
pub struct ResumeSettings {
    pub save_dir: String,
    pub max_concurrent: usize,
    pub resolution: String,
}

/// The shared table of download tasks, keyed by page URL.
pub struct TaskRegistry {
    tasks: StringHashMap<TaskControlInfo>,
    last_generation: u64,
}

pub open spec fn is_running(v: RegistryView, url: Seq<char>) -> bool {
    v.tasks.contains_key(url) && v.tasks[url].state == TaskControlState::Running
}

/// No task carries a generation above the last one handed out.
pub open spec fn generations_bounded(v: RegistryView) -> bool {
    forall|k: Seq<char>| #[trigger] v.tasks.contains_key(k) ==> v.tasks[k].generation <= v.last_generation
}

/// A fresh running task: no title yet, the given settings, generation `g`.
pub open spec fn fresh_task(save_dir: Seq<char>, max_concurrent: usize, resolution: Seq<char>, g: u64) -> TaskView {
    TaskView {
        state: TaskControlState::Running,
        title: seq![],
        save_dir,
        max_concurrent,
        resolution,
        generation: g,
    }
}

/// `url` gets a fresh running task with the next generation.
pub open spec fn spec_register(
    v: RegistryView,
    url: Seq<char>,
    save_dir: Seq<char>,
    max_concurrent: usize,
    resolution: Seq<char>,
) -> RegistryView {
    let g = (v.last_generation + 1) as u64;
    RegistryView {
        tasks: v.tasks.insert(url, fresh_task(save_dir, max_concurrent, resolution, g)),
        last_generation: g,
    }
}

/// The task of `url`, if any, with its state set.
pub open spec fn spec_set_state(v: RegistryView, url: Seq<char>, s: TaskControlState) -> RegistryView {
    if v.tasks.contains_key(url) {
        RegistryView { tasks: v.tasks.insert(url, TaskView { state: s, ..v.tasks[url] }), ..v }
    } else {
        v
    }
}

/// A resumed task: running again, under the next generation.
pub open spec fn spec_resume(v: RegistryView, url: Seq<char>) -> RegistryView {
    let g = (v.last_generation + 1) as u64;
    RegistryView {
        tasks: v.tasks.insert(
            url,
            TaskView { state: TaskControlState::Running, generation: g, ..v.tasks[url] },
        ),
        last_generation: g,
    }
}

pub open spec fn already_downloading_msg(url: Seq<char>) -> Seq<char> {
    "该影片已在下载中，请勿重复添加: "@ + url
}

pub open spec fn already_running_msg(url: Seq<char>) -> Seq<char> {
    "该影片已在下载中，请勿重复启动: "@ + url
}

/// Pausing a running task and resuming it brings it back to running with
/// the same title and settings, under a generation newer than the one it
/// had: the instance that was running no longer owns the task.
pub proof fn law_pause_then_resume(v: RegistryView, url: Seq<char>)
    requires
        generations_bounded(v),
        v.last_generation < u64::MAX,
        is_running(v, url),
    ensures
        ({
            let paused = spec_set_state(v, url, TaskControlState::Paused);
            let resumed = spec_resume(paused, url);
            &&& paused.tasks.contains_key(url) && !is_running(paused, url)
            &&& is_running(resumed, url)
            &&& resumed.tasks[url].title == v.tasks[url].title
            &&& resumed.tasks[url].save_dir == v.tasks[url].save_dir
            &&& resumed.tasks[url].max_concurrent == v.tasks[url].max_concurrent
            &&& resumed.tasks[url].resolution == v.tasks[url].resolution
            &&& resumed.tasks[url].generation > v.tasks[url].generation
        }),
{
}

/// Every registration or resumption hands out a generation newer than any
/// task holds, so an instance started before it is superseded; the bound on
/// generations is kept.
pub proof fn law_new_generation_supersedes(
    v: RegistryView,
    url: Seq<char>,
    save_dir: Seq<char>,
    max_concurrent: usize,
    resolution: Seq<char>,
)
    requires
        generations_bounded(v),
        v.last_generation < u64::MAX,
    ensures
        ({
            let r = spec_register(v, url, save_dir, max_concurrent, resolution);
            &&& generations_bounded(r)
            &&& forall|k: Seq<char>| #[trigger] v.tasks.contains_key(k) ==> v.tasks[k].generation
                < r.tasks[url].generation
        }),
        v.tasks.contains_key(url) ==> ({
            let r = spec_resume(v, url);
            &&& generations_bounded(r)
            &&& forall|k: Seq<char>| #[trigger] v.tasks.contains_key(k) ==> v.tasks[k].generation
                < r.tasks[url].generation
        }),
{
    let r = spec_register(v, url, save_dir, max_concurrent, resolution);
    assert forall|k: Seq<char>| #[trigger] r.tasks.contains_key(k) implies r.tasks[k].generation
        <= r.last_generation by {
        if k != url {
            assert(v.tasks.contains_key(k));
        }
    }
    if v.tasks.contains_key(url) {
        let r2 = spec_resume(v, url);
        assert forall|k: Seq<char>| #[trigger] r2.tasks.contains_key(k) implies r2.tasks[k].generation
            <= r2.last_generation by {
            if k != url {
                assert(v.tasks.contains_key(k));
            }
        }
    }
}

/// A cancelled task stays in the registry, marked cancelled, until the
/// engine removes it; nothing else changes.
pub proof fn law_cancel_keeps_task(v: RegistryView, url: Seq<char>, other: Seq<char>)
    requires
        v.tasks.contains_key(url),
        other != url,
    ensures
        ({
            let c = spec_set_state(v, url, TaskControlState::Cancelled);
            &&& c.tasks.contains_key(url)
            &&& c.tasks[url].state == TaskControlState::Cancelled
            &&& c.tasks[url].generation == v.tasks[url].generation
            &&& c.tasks.contains_key(other) == v.tasks.contains_key(other)
            &&& v.tasks.contains_key(other) ==> c.tasks[other] == v.tasks[other]
        }),
{
}

fn copy_info(i: &TaskControlInfo) -> (r: TaskControlInfo)
    ensures
        r@ == i@,
{
    TaskControlInfo {
        state: i.state,
        title: i.title.clone(),
        save_dir: i.save_dir.clone(),
        max_concurrent: i.max_concurrent,
        resolution: i.resolution.clone(),
        generation: i.generation,
    }
}

fn message_with(prefix: &str, url: &str) -> (r: String)
    ensures
        r@ == prefix@ + url@,
{
    let v = concat(&chars_of(prefix), &chars_of(url));
    string_of(&v)
}

impl TaskRegistry {
    pub closed spec fn view(&self) -> RegistryView {
        RegistryView {
            tasks: self.tasks@.map_values(|i: TaskControlInfo| i@),
            last_generation: self.last_generation,
        }
    }

    /// Generations stay within the last one handed out.
    pub open spec fn wf(&self) -> bool {
        generations_bounded(self.view())
    }

    /// An empty registry.
    pub fn new() -> (r: Self)
        ensures
            r.view().tasks == Map::<Seq<char>, TaskView>::empty(),
            r.view().last_generation == 0,
            r.wf(),
    {
        let r = TaskRegistry { tasks: StringHashMap::new(), last_generation: 0 };
        assert(r.view().tasks =~= Map::<Seq<char>, TaskView>::empty());
        r
    }

    /// A further generation can still be handed out (a start or a resume).
    pub fn has_generation_left(&self) -> (r: bool)
        ensures
            r == (self.view().last_generation < u64::MAX),
    {
        self.last_generation < u64::MAX
    }

    /// The control state of `url`'s task.
    pub fn state(&self, url: &str) -> (r: Option<TaskControlState>)
        ensures
            match r {
                Some(s) => self.view().tasks.contains_key(url@) && self.view().tasks[url@].state == s,
                None => !self.view().tasks.contains_key(url@),
            },
    {
        match self.tasks.get(url) {
            Some(i) => Some(i.state),
            None => None,
        }
    }

    /// The generation of `url`'s task.
    pub fn generation(&self, url: &str) -> (r: Option<u64>)
        ensures
            match r {
                Some(g) => self.view().tasks.contains_key(url@) && self.view().tasks[url@].generation == g,
                None => !self.view().tasks.contains_key(url@),
            },
    {
        match self.tasks.get(url) {
            Some(i) => Some(i.generation),
            None => None,
        }
    }

    /// The task of `url`, if any.
    pub fn get(&self, url: &str) -> (r: Option<TaskControlInfo>)
        ensures
            match r {
                Some(i) => self.view().tasks.contains_key(url@) && self.view().tasks[url@] == i@,
                None => !self.view().tasks.contains_key(url@),
            },
    {
        match self.tasks.get(url) {
            Some(i) => Some(copy_info(i)),
            None => None,
        }
    }

    /// The download instance of generation `g` still owns `url`'s task.
    pub fn is_current(&self, url: &str, g: u64) -> (r: bool)
        ensures
            r == (self.view().tasks.contains_key(url@) && self.view().tasks[url@].generation == g),
    {
        match self.tasks.get(url) {
            Some(i) => i.generation == g,
            None => false,
        }
    }

    /// The user paused or cancelled `url`'s task.
    pub fn stop_requested(&self, url: &str) -> (r: bool)
        ensures
            r == (self.view().tasks.contains_key(url@) && (self.view().tasks[url@].state
                == TaskControlState::Paused || self.view().tasks[url@].state
                == TaskControlState::Cancelled)),
    {
        match self.tasks.get(url) {
            Some(i) => i.state == TaskControlState::Paused || i.state == TaskControlState::Cancelled,
            None => false,
        }
    }

    fn put(&mut self, url: &str, info: TaskControlInfo)
        ensures
            final(self).view().tasks == old(self).view().tasks.insert(url@, info@),
            final(self).view().last_generation == old(self).view().last_generation,
    {
        let ghost before = self.tasks@;
        self.tasks.insert(url.to_string(), info);
        proof {
            assert(self.view().tasks =~= old(self).view().tasks.insert(url@, info@));
        }
    }

    /// Gives `url` a fresh running task (no title yet) under the next
    /// generation, replacing any earlier one; the generation.
    pub fn register(&mut self, url: &str, save_dir: &str, max_concurrent: usize, resolution: &str) -> (g: u64)
        requires
            old(self).wf(),
            old(self).view().last_generation < u64::MAX,
        ensures
            final(self).wf(),
            final(self).view() == spec_register(old(self).view(), url@, save_dir@, max_concurrent, resolution@),
            g == final(self).view().last_generation,
            forall|k: Seq<char>| #[trigger] old(self).view().tasks.contains_key(k) ==> old(self).view().tasks[k].generation < g,
    {
        let g = self.last_generation + 1;
        self.last_generation = g;
        self.put(
            url,
            TaskControlInfo {
                state: TaskControlState::Running,
                title: String::new(),
                save_dir: save_dir.to_string(),
                max_concurrent,
                resolution: resolution.to_string(),
                generation: g,
            },
        );
        proof {
            assert(self.view() == spec_register(old(self).view(), url@, save_dir@, max_concurrent, resolution@));
        }
        g
    }

    /// Registers a new download of `url`; refused while one is running.
    pub fn start(&mut self, url: &str, save_dir: &str, max_concurrent: usize, resolution: &str) -> (r: Result<u64, String>)
        requires
            old(self).wf(),
            old(self).view().last_generation < u64::MAX,
        ensures
            final(self).wf(),
            is_running(old(self).view(), url@) ==> (r matches Err(m) && m@ == already_downloading_msg(url@)
                && final(self).view() == old(self).view()),
            !is_running(old(self).view(), url@) ==> (r matches Ok(g) && final(self).view() == spec_register(
                old(self).view(),
                url@,
                save_dir@,
                max_concurrent,
                resolution@,
            ) && g == final(self).view().last_generation),
    {
        if let Some(TaskControlState::Running) = self.state(url) {
            return Err(message_with("该影片已在下载中，请勿重复添加: ", url));
        }
        Ok(self.register(url, save_dir, max_concurrent, resolution))
    }

    /// Sets the state of `url`'s task, if there is one.
    pub fn set_state(&mut self, url: &str, s: TaskControlState)
        requires
            old(self).wf(),
        ensures
            final(self).wf(),
            final(self).view() == spec_set_state(old(self).view(), url@, s),
    {
        match self.get(url) {
            Some(mut info) => {
                info.state = s;
                self.put(url, info);
                assert(self.view() == spec_set_state(old(self).view(), url@, s));
            },
            None => {},
        }
    }

    /// Pauses `url`'s task; the engine notices and stops.
    pub fn pause(&mut self, url: &str)
        requires
            old(self).wf(),
        ensures
            final(self).wf(),
            final(self).view() == spec_set_state(old(self).view(), url@, TaskControlState::Paused),
    {
        self.set_state(url, TaskControlState::Paused)
    }

    /// Marks `url`'s task cancelled but keeps it, so that the running engine
    /// sees the request, stops and removes the task itself; the task as it
    /// is now.
    pub fn cancel(&mut self, url: &str) -> (r: Option<TaskControlInfo>)
        requires
            old(self).wf(),
        ensures
            final(self).wf(),
            final(self).view() == spec_set_state(old(self).view(), url@, TaskControlState::Cancelled),
            match r {
                Some(i) => final(self).view().tasks.contains_key(url@) && i@ == final(self).view().tasks[url@],
                None => !old(self).view().tasks.contains_key(url@),
            },
    {
        self.set_state(url, TaskControlState::Cancelled);
        self.get(url)
    }

    /// Resumes `url`'s task: refused while it runs; a known task runs again
    /// under the next generation and its settings are returned; None for an
    /// unknown task (whose settings must be recovered elsewhere).
    pub fn resume(&mut self, url: &str) -> (r: Result<Option<ResumeSettings>, String>)
        requires
            old(self).wf(),
            old(self).view().last_generation < u64::MAX,
        ensures
            final(self).wf(),
            is_running(old(self).view(), url@) ==> (r matches Err(m) && m@ == already_running_msg(url@)
                && final(self).view() == old(self).view()),
            !old(self).view().tasks.contains_key(url@) ==> (r matches Ok(None) && final(self).view()
                == old(self).view()),
            old(self).view().tasks.contains_key(url@) && !is_running(old(self).view(), url@) ==> (r matches Ok(Some(s))
                && final(self).view() == spec_resume(old(self).view(), url@)
                && s.save_dir@ == old(self).view().tasks[url@].save_dir
                && s.max_concurrent == old(self).view().tasks[url@].max_concurrent
                && s.resolution@ == old(self).view().tasks[url@].resolution),
    {
        match self.get(url) {
            None => Ok(None),
            Some(mut info) => {
                if info.state == TaskControlState::Running {
                    return Err(message_with("该影片已在下载中，请勿重复启动: ", url));
                }
                let g = self.last_generation + 1;
                self.last_generation = g;
                info.state = TaskControlState::Running;
                info.generation = g;
                let settings = ResumeSettings {
                    save_dir: info.save_dir.clone(),
                    max_concurrent: info.max_concurrent,
                    resolution: info.resolution.clone(),
                };
                self.put(url, info);
                assert(self.view() == spec_resume(old(self).view(), url@));
                Ok(Some(settings))
            },
        }
    }

    /// Records what the engine learned of `url`'s task (its title) and the
    /// settings it runs with, if the task is still there.
    pub fn update_details(
        &mut self,
        url: &str,
        title: &str,
        save_dir: &str,
        max_concurrent: usize,
        resolution: &str,
    )
        requires
            old(self).wf(),
        ensures
            final(self).wf(),
            old(self).view().tasks.contains_key(url@) ==> final(self).view() == (RegistryView {
                tasks: old(self).view().tasks.insert(
                    url@,
                    TaskView {
                        title: title@,
                        save_dir: save_dir@,
                        max_concurrent,
                        resolution: resolution@,
                        ..old(self).view().tasks[url@]
                    },
                ),
                ..old(self).view()
            }),
            !old(self).view().tasks.contains_key(url@) ==> final(self).view() == old(self).view(),
    {
        match self.get(url) {
            Some(mut info) => {
                info.title = title.to_string();
                info.save_dir = save_dir.to_string();
                info.max_concurrent = max_concurrent;
                info.resolution = resolution.to_string();
                self.put(url, info);
            },
            None => {},
        }
    }

    /// Forgets `url`'s task.
    pub fn remove(&mut self, url: &str)
        requires
            old(self).wf(),
        ensures
            final(self).wf(),
            final(self).view() == (RegistryView { tasks: old(self).view().tasks.remove(url@), ..old(self).view() }),
    {
        self.tasks.remove(url);
        assert(self.view().tasks =~= old(self).view().tasks.remove(url@));
    }
}

} // verus!
