//! The application state: the set of active tasks and the status reported
//! to the center.

use vstd::prelude::*;
use crate::task::random_uuid;
use crate::text::{str_eq, string_set, insert_string, remove_string};
use crate::tracker::TaskUpdateTag;

verus! {

#[derive(Clone, Copy, PartialEq, Eq, Structural, Debug)]
pub enum AppStatus {
    Running,
    Idle,
    Error,
    Unknown,
}

pub open spec fn status_name(s: AppStatus) -> Seq<char> {
    match s {
        AppStatus::Running => "running"@,
        AppStatus::Idle => "idle"@,
        AppStatus::Error => "error"@,
        AppStatus::Unknown => "unknown"@,
    }
}

pub open spec fn status_of(s: Seq<char>) -> AppStatus {
    if s == "running"@ {
        AppStatus::Running
    } else if s == "idle"@ {
        AppStatus::Idle
    } else if s == "error"@ {
        AppStatus::Error
    } else {
        AppStatus::Unknown
    }
}

/// The periodic status report of the application.
pub struct AppStatusReport {
    pub app_id: String,
    pub app_name: String,
    pub url: String,
    pub status: AppStatus,
    /// Milliseconds since the Unix epoch.
    pub started_at: i64,
    pub active_task_uuids: Vec<String>,
}

impl AppStatusReport {
    pub fn status_as_str(&self) -> (r: &'static str)
        ensures
            r@ == status_name(self.status),
    {
        match self.status {
            AppStatus::Running => "running",
            AppStatus::Idle => "idle",
            AppStatus::Error => "error",
            AppStatus::Unknown => "unknown",
        }
    }

    pub fn status_from_str(s: &str) -> (r: AppStatus)
        ensures
            r == status_of(s@),
    {
        if str_eq(s, "running") {
            AppStatus::Running
        } else if str_eq(s, "idle") {
            AppStatus::Idle
        } else if str_eq(s, "error") {
            AppStatus::Error
        } else {
            AppStatus::Unknown
        }
    }

    /// Two reports agree on the application's name and url (the status and
    /// the tasks are not compared).
    pub fn compare_attributes(&self, report: &Self) -> (r: bool)
        ensures
            r == (self.app_name@ == report.app_name@ && self.url@ == report.url@),
    {
        self.app_name == report.app_name && self.url == report.url
    }
}

/// The application state.
pub struct AppState {
    pub app_id: String,
    pub app_name: String,
    pub url: String,
    pub status: AppStatus,
    pub started_at: i64,
    /// Tasks in every state, finished ones too, until they are closed.
    pub active_task_uuids: Vec<String>,
}

impl AppState {
    pub open spec fn active(&self) -> Set<Seq<char>> {
        string_set(self.active_task_uuids@)
    }

    /// The state of an application that has just started, with no tasks.
    /// Without a configured id the application gets `app-` and a random uuid.
    pub fn new(app_id: Option<String>, app_name: Option<String>, url: Option<String>, started_at: i64) -> (r: Self)
        ensures
            match app_id {
                Some(id) => r.app_id == id,
                None => r.app_id@.len() == 40 && r.app_id@.subrange(0, 4) == "app-"@,
            },
            r.app_name@ == (match app_name { Some(n) => n@, None => Seq::<char>::empty() }),
            r.url@ == (match url { Some(u) => u@, None => Seq::<char>::empty() }),
            r.status == AppStatus::Idle,
            r.started_at == started_at,
            r.active().is_empty(),
    {
        let app_id = match app_id {
            Some(id) => id,
            None => {
                let u = random_uuid();
                let id = String::from_str("app-").concat(u.as_str());
                proof {
                    reveal_strlit("app-");
                    assert(id@.subrange(0, 4) =~= "app-"@);
                }
                id
            },
        };
        let app_name = match app_name {
            Some(n) => n,
            None => String::new(),
        };
        let url = match url {
            Some(u) => u,
            None => String::new(),
        };
        let r = AppState { app_id, app_name, url, status: AppStatus::Idle, started_at, active_task_uuids: Vec::new() };
        assert(r.active() =~= Set::empty());
        r
    }

    fn determine_status(&mut self)
        ensures
            final(self).active() == old(self).active(),
            final(self).app_id == old(self).app_id,
            final(self).status == (if old(self).active().is_empty() { AppStatus::Idle } else { AppStatus::Running }),
    {
        if self.active_task_uuids.len() > 0 {
            self.status = AppStatus::Running;
            assert(self.active().contains(self.active_task_uuids@[0]@));
        } else {
            self.status = AppStatus::Idle;
            assert(self.active() =~= Set::empty());
        }
    }

    /// A task update: a started task becomes active. Returns whether a status
    /// report is due.
    pub fn handle_task_update(&mut self, task_uuid: String, tag: TaskUpdateTag) -> (r: bool)
        ensures
            r == (tag == TaskUpdateTag::Started),
            r ==> final(self).active() == old(self).active().insert(task_uuid@)
                && final(self).status == AppStatus::Running,
            !r ==> final(self).active() == old(self).active() && final(self).status == old(self).status,
    {
        if tag != TaskUpdateTag::Started {
            return false;
        }
        let ghost u = task_uuid@;
        insert_string(&mut self.active_task_uuids, task_uuid);
        self.determine_status();
        assert(self.active().contains(u));
        true
    }

    /// A closed task is no longer active; a status report is due.
    pub fn handle_close_task(&mut self, task_uuid: &String)
        ensures
            final(self).active() == old(self).active().remove(task_uuid@),
            final(self).status == (if final(self).active().is_empty() { AppStatus::Idle } else { AppStatus::Running }),
    {
        remove_string(&mut self.active_task_uuids, task_uuid);
        self.determine_status();
    }

    /// The status report of the current state.
    pub fn generate_status_report(&self) -> (r: AppStatusReport)
        ensures
            r.app_id == self.app_id,
            r.app_name == self.app_name,
            r.url == self.url,
            r.status == self.status,
            r.started_at == self.started_at,
            string_set(r.active_task_uuids@) == self.active(),
    {
        let active = self.active_task_uuids.clone();
        assert(active@ =~= self.active_task_uuids@);
        AppStatusReport {
            app_id: self.app_id.clone(),
            app_name: self.app_name.clone(),
            url: self.url.clone(),
            status: self.status,
            started_at: self.started_at,
            active_task_uuids: active,
        }
    }
}

} // verus!
