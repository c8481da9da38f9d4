//! Naming and request building for a task queue service: fully qualified
//! queue and task names, the settings of a client, and the request that
//! creates a task. Sending is left to the caller's transport, which the types
//! here carry as a parameter.

use crate::naming::optional_text;
use vstd::prelude::*;
use vstd::string::*;

verus! {

/// The host name of the task queue service.
pub open spec fn service_endpoint() -> Seq<char> {
    "cloudtasks.googleapis.com"@
}

/// The location that a client works in unless told otherwise.
pub open spec fn default_location() -> Seq<char> {
    "us-east1"@
}

/// The project that stands for a local emulator.
pub open spec fn emulator_project() -> Seq<char> {
    "local-project"@
}

/// The number of connections that a client keeps unless told otherwise.
pub const DEFAULT_POOL_SIZE: usize = 4;

/// Whether a name already gives its full path.
pub open spec fn is_qualified(id: Seq<char>) -> bool {
    id.contains('/')
}

/// The full name of a queue: an identifier that holds a slash is taken as
/// already full, any other is placed under its project and location.
pub open spec fn queue_path(project: Seq<char>, location: Seq<char>, id: Seq<char>) -> Seq<char> {
    if is_qualified(id) {
        id
    } else {
        "projects/"@ + project + "/locations/"@ + location + "/queues/"@ + id
    }
}

/// The full name of a task: an identifier that holds a slash is taken as
/// already full, any other is placed under its project, location and queue.
pub open spec fn task_path(
    project: Seq<char>,
    location: Seq<char>,
    queue_id: Seq<char>,
    id: Seq<char>,
) -> Seq<char> {
    if is_qualified(id) {
        id
    } else {
        "projects/"@ + project + "/locations/"@ + location + "/queues/"@ + queue_id + "/tasks/"@
            + id
    }
}

/// Tells whether a text holds a slash.
pub fn has_slash(text: &str) -> (out: bool)
    ensures
        out == is_qualified(text@),
{
    let n: usize = text.unicode_len();
    let mut i: usize = 0;
    while i < n
        invariant
            i <= n,
            n == text@.len(),
            forall|j: int| 0 <= j < i ==> text@[j] != '/',
        decreases n - i,
    {
        if text.get_char(i) == '/' {
            return true;
        }
        i += 1;
    }
    false
}

/// Where a client is to connect.
#[derive(Clone, Debug, PartialEq, Eq)]
pub enum Environment {
    /// A local emulator at the given host.
    Emulator(String),
    /// The hosted service.
    GoogleCloud,
}

/// The settings that a client is made from.
#[derive(Clone, Debug, PartialEq, Eq)]
pub struct Configuration {
    pub pool_size: Option<usize>,
    pub location_id: String,
    pub project_id: Option<String>,
    pub environment: Environment,
    pub endpoint: String,
}

impl Configuration {
    /// The settings for a given emulator host, if any: with a host, the
    /// emulator and its stand-in project; without one, the hosted service and
    /// no project yet.
    pub fn for_emulator_host(emulator: Option<String>) -> (out: Configuration)
        ensures
            out.pool_size == Some(DEFAULT_POOL_SIZE),
            out.location_id@ == default_location(),
            out.endpoint@ == service_endpoint(),
            match emulator {
                Some(host) => out.environment == Environment::Emulator(host)
                    && optional_text(out.project_id) == Some(emulator_project()),
                None => out.environment == Environment::GoogleCloud && out.project_id.is_none(),
            },
    {
        let pool_size = Some(DEFAULT_POOL_SIZE);
        let location_id = "us-east1".to_owned();
        let endpoint = "cloudtasks.googleapis.com".to_owned();
        match emulator {
            Some(host) => Configuration {
                pool_size,
                location_id,
                project_id: Some("local-project".to_owned()),
                environment: Environment::Emulator(host),
                endpoint,
            },
            None => Configuration {
                pool_size,
                location_id,
                project_id: None,
                environment: Environment::GoogleCloud,
                endpoint,
            },
        }
    }

    /// Takes over the project that the credentials name. Settings for an
    /// emulator are left as they are.
    pub fn with_auth(self, authenticated_project: Option<String>) -> (out: Configuration)
        ensures
            out.pool_size == self.pool_size,
            out.location_id == self.location_id,
            out.environment == self.environment,
            out.endpoint == self.endpoint,
            out.project_id == (match self.environment {
                Environment::Emulator(_) => self.project_id,
                Environment::GoogleCloud => authenticated_project,
            }),
    {
        match self.environment {
            Environment::Emulator(host) => Configuration {
                pool_size: self.pool_size,
                location_id: self.location_id,
                project_id: self.project_id,
                environment: Environment::Emulator(host),
                endpoint: self.endpoint,
            },
            Environment::GoogleCloud => Configuration {
                pool_size: self.pool_size,
                location_id: self.location_id,
                project_id: authenticated_project,
                environment: Environment::GoogleCloud,
                endpoint: self.endpoint,
            },
        }
    }

    /// The number of connections to open: the configured size, or none where
    /// no size is configured.
    pub fn connections(&self) -> (out: usize)
        ensures
            out == (match self.pool_size {
                Some(n) => n,
                None => 0usize,
            }),
    {
        match self.pool_size {
            Some(n) => n,
            None => 0,
        }
    }
}

/// Why a client could not be made.
#[derive(Clone, Copy, Debug, PartialEq, Eq, Structural)]
pub enum Error {
    /// The settings name no project.
    ProjectIdNotFound,
}

/// What is said of a failure to make a client.
pub open spec fn error_text(error: Error) -> Seq<char> {
    match error {
        Error::ProjectIdNotFound => "invalid project_id"@,
    }
}

impl Error {
    /// The message of this error.
    pub fn message(&self) -> (out: String)
        ensures
            out@ == error_text(*self),
    {
        match self {
            Error::ProjectIdNotFound => "invalid project_id".to_owned(),
        }
    }
}

/// The time at which a task is due, as seconds and nanoseconds since the
/// epoch.
#[derive(Clone, Copy, Debug, PartialEq, Eq, Structural)]
pub struct ScheduleTime {
    pub seconds: i64,
    pub nanos: i32,
}

/// The task named in a creation request.
#[derive(Clone, Debug, PartialEq, Eq)]
pub struct TaskBody {
    pub name: String,
    pub schedule_time: Option<ScheduleTime>,
}

/// A request to create a task in a queue.
#[derive(Clone, Debug, PartialEq, Eq)]
pub struct CreateTaskRequest {
    pub parent: String,
    pub task: Option<TaskBody>,
    pub response_view: i32,
}

/// The routing header that goes with a creation request.
pub open spec fn routing_header(parent: Seq<char>) -> Seq<char> {
    "parent="@ + parent
}

impl CreateTaskRequest {
    /// The routing header of this request: its parent queue under the key
    /// `parent`.
    pub fn routing(&self) -> (out: String)
        ensures
            out@ == routing_header(self.parent@),
    {
        let mut header = "parent=".to_owned();
        header.append(self.parent.as_str());
        header
    }
}

/// A queue, named in full, together with the transport that reaches it.
#[derive(Clone, Debug)]
pub struct Task<C> {
    fqqn: String,
    client: C,
}

impl<C> Task<C> {
    /// The full name of the queue.
    pub closed spec fn queue(&self) -> Seq<char> {
        self.fqqn@
    }

    /// The transport that this queue is reached through.
    pub closed spec fn transport(&self) -> C {
        self.client
    }

    /// A queue with the given full name, reached through `client`.
    pub fn new(fqqn: String, client: C) -> (out: Self)
        ensures
            out.queue() == fqqn@,
            out.transport() == client,
    {
        Self { fqqn, client }
    }

    /// The full name of the queue.
    pub fn queue_name(&self) -> (out: &String)
        ensures
            out@ == self.queue(),
    {
        &self.fqqn
    }

    /// The transport that this queue is reached through.
    pub fn client(&self) -> (out: &C)
        ensures
            *out == self.transport(),
    {
        &self.client
    }

    /// The request that creates a task in this queue. With a full task name
    /// the request names the task and carries its schedule; without one it
    /// names none, and the schedule is not used.
    pub fn create_request(&self, fqtn: Option<String>, schedule_time: Option<ScheduleTime>) -> (out:
        CreateTaskRequest)
        ensures
            out.parent@ == self.queue(),
            out.response_view == 0,
            match fqtn {
                Some(name) => out.task.is_some() && out.task.unwrap().name@ == name@
                    && out.task.unwrap().schedule_time == schedule_time,
                None => out.task.is_none(),
            },
    {
        let task = match fqtn {
            Some(name) => Some(TaskBody { name, schedule_time }),
            None => None,
        };
        CreateTaskRequest { parent: self.fqqn.clone(), task, response_view: 0 }
    }
}

/// A client for the queues of one project and location.
#[derive(Clone, Debug)]
pub struct Client<C> {
    location_id: String,
    project_id: String,
    inner: C,
}

impl<C> Client<C> {
    /// The location that this client works in.
    pub closed spec fn location(&self) -> Seq<char> {
        self.location_id@
    }

    /// The project that this client works in.
    pub closed spec fn project(&self) -> Seq<char> {
        self.project_id@
    }

    /// The transport that this client sends through.
    pub closed spec fn transport(&self) -> C {
        self.inner
    }

    /// A client for the configured location and project, over the transport
    /// `inner`. Fails exactly where the settings name no project.
    pub fn new(config: Configuration, inner: C) -> (out: Result<Self, Error>)
        ensures
            match config.project_id {
                Some(project) => out.is_ok() && out.unwrap().project() == project@
                    && out.unwrap().location() == config.location_id@ && out.unwrap().transport()
                    == inner,
                None => out == Err::<Self, Error>(Error::ProjectIdNotFound),
            },
    {
        match config.project_id {
            Some(project_id) => Ok(Self { location_id: config.location_id, project_id, inner }),
            None => Err(Error::ProjectIdNotFound),
        }
    }

    /// The full name of a queue of this client's project and location.
    pub fn fully_qualified_queue_name(&self, id: &str) -> (out: String)
        ensures
            out@ == queue_path(self.project(), self.location(), id@),
    {
        if has_slash(id) {
            id.to_owned()
        } else {
            let mut name = "projects/".to_owned();
            name.append(self.project_id.as_str());
            name.append("/locations/");
            name.append(self.location_id.as_str());
            name.append("/queues/");
            name.append(id);
            name
        }
    }

    /// The full name of a task in a queue of this client's project and
    /// location.
    pub fn fully_qualified_task_name(&self, queue_id: &str, id: &str) -> (out: String)
        ensures
            out@ == task_path(self.project(), self.location(), queue_id@, id@),
    {
        if has_slash(id) {
            id.to_owned()
        } else {
            let mut name = "projects/".to_owned();
            name.append(self.project_id.as_str());
            name.append("/locations/");
            name.append(self.location_id.as_str());
            name.append("/queues/");
            name.append(queue_id);
            name.append("/tasks/");
            name.append(id);
            name
        }
    }

    /// The name under which a new task is created: the full name of the
    /// given identifier, or none where the service is to choose one.
    pub fn task_name(&self, queue_id: &str, id: Option<&str>) -> (out: Option<String>)
        ensures
            match id {
                Some(id) => optional_text(out) == Some(
                    task_path(self.project(), self.location(), queue_id@, id@),
                ),
                None => out.is_none(),
            },
    {
        match id {
            Some(id) => Some(self.fully_qualified_task_name(queue_id, id)),
            None => None,
        }
    }
}

impl<C: Clone> Client<C> {
    /// The queue with the given identifier, reached through a copy of this
    /// client's transport.
    pub fn task(&self, queue_id: &str) -> (out: Task<C>)
        ensures
            out.queue() == queue_path(self.project(), self.location(), queue_id@),
            vstd::pervasive::cloned(self.transport(), out.transport()),
    {
        Task::new(self.fully_qualified_queue_name(queue_id), self.inner.clone())
    }
}

} // verus!
