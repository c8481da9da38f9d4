use cloud_mapping::tasks::{
    has_slash, Client, Configuration, CreateTaskRequest, Environment, Error, ScheduleTime, Task,
    TaskBody, DEFAULT_POOL_SIZE,
};

fn client() -> Client<u8> {
    let config = Configuration::for_emulator_host(None).with_auth(Some("proj".to_string()));
    Client::new(config, 7u8).unwrap()
}

#[test]
fn queue_name_is_placed_under_project_and_location() {
    assert_eq!(
        client().fully_qualified_queue_name("q1"),
        "projects/proj/locations/us-east1/queues/q1"
    );
}

#[test]
fn qualified_queue_name_is_kept() {
    assert_eq!(
        client().fully_qualified_queue_name("projects/p/locations/l/queues/q"),
        "projects/p/locations/l/queues/q"
    );
    assert_eq!(client().fully_qualified_queue_name("/"), "/");
}

#[test]
fn task_name_is_placed_under_queue() {
    assert_eq!(
        client().fully_qualified_task_name("q1", "t1"),
        "projects/proj/locations/us-east1/queues/q1/tasks/t1"
    );
    assert_eq!(client().fully_qualified_task_name("q1", "a/b"), "a/b");
    assert_eq!(
        client().fully_qualified_task_name("x/y", "t"),
        "projects/proj/locations/us-east1/queues/x/y/tasks/t"
    );
}

#[test]
fn optional_task_name() {
    assert_eq!(client().task_name("q", None), None);
    assert_eq!(
        client().task_name("q", Some("t")),
        Some("projects/proj/locations/us-east1/queues/q/tasks/t".to_string())
    );
}

#[test]
fn has_slash_finds_a_slash_anywhere() {
    assert!(has_slash("/"));
    assert!(has_slash("a/b"));
    assert!(has_slash("é/"));
    assert!(!has_slash(""));
    assert!(!has_slash("queue-1"));
}

#[test]
fn hosted_settings_have_no_project() {
    let config = Configuration::for_emulator_host(None);
    assert_eq!(
        config,
        Configuration {
            pool_size: Some(4),
            location_id: "us-east1".to_string(),
            project_id: None,
            environment: Environment::GoogleCloud,
            endpoint: "cloudtasks.googleapis.com".to_string(),
        }
    );
    assert_eq!(DEFAULT_POOL_SIZE, 4);
    assert_eq!(config.connections(), 4);
}

#[test]
fn emulator_settings_have_local_project() {
    let config = Configuration::for_emulator_host(Some("localhost:8123".to_string()));
    assert_eq!(config.project_id, Some("local-project".to_string()));
    assert_eq!(config.environment, Environment::Emulator("localhost:8123".to_string()));
    let kept = config.clone().with_auth(Some("other".to_string()));
    assert_eq!(kept, config);
}

#[test]
fn hosted_settings_take_authenticated_project() {
    let config = Configuration::for_emulator_host(None);
    assert_eq!(config.clone().with_auth(Some("p".to_string())).project_id, Some("p".to_string()));
    assert_eq!(config.with_auth(None).project_id, None);
}

#[test]
fn unset_pool_size_opens_no_connection() {
    let mut config = Configuration::for_emulator_host(None);
    config.pool_size = None;
    assert_eq!(config.connections(), 0);
}

#[test]
fn client_needs_a_project() {
    let config = Configuration::for_emulator_host(None);
    assert_eq!(Client::new(config, 1u8).err(), Some(Error::ProjectIdNotFound));
    let local = Configuration::for_emulator_host(Some("h".to_string()));
    assert!(Client::new(local, 1u8).is_ok());
}

#[test]
fn missing_project_has_a_message() {
    assert_eq!(Error::ProjectIdNotFound.message(), "invalid project_id");
}

#[test]
fn task_of_client_names_its_queue() {
    let task = client().task("q9");
    assert_eq!(task.queue_name(), "projects/proj/locations/us-east1/queues/q9");
    assert_eq!(*task.client(), 7u8);
}

#[test]
fn create_request_names_the_task() {
    let task = Task::new("projects/p/locations/l/queues/q".to_string(), ());
    let when = ScheduleTime { seconds: 12, nanos: 34 };
    assert_eq!(
        task.create_request(Some("projects/p/locations/l/queues/q/tasks/t".to_string()), Some(when)),
        CreateTaskRequest {
            parent: "projects/p/locations/l/queues/q".to_string(),
            task: Some(TaskBody {
                name: "projects/p/locations/l/queues/q/tasks/t".to_string(),
                schedule_time: Some(when),
            }),
            response_view: 0,
        }
    );
}

#[test]
fn create_request_without_name_has_no_task() {
    let task = Task::new("queue".to_string(), ());
    let request = task.create_request(None, Some(ScheduleTime { seconds: 1, nanos: 2 }));
    assert_eq!(
        request,
        CreateTaskRequest { parent: "queue".to_string(), task: None, response_view: 0 }
    );
    assert_eq!(request.routing(), "parent=queue");
}
