use imagine_jobs::document::{Document, Number};
use imagine_jobs::registry::{get_task_status, update_task_status, Registry};
use imagine_jobs::resolver::{read_history, Action, FetchError, ImageRef, Reply, Resolver};
use imagine_jobs::sd3::SD3Client;
use imagine_jobs::status::TaskStatus;

fn text(s: &str) -> Document {
    Document::Text(s.to_string())
}

fn object(fields: Vec<(&str, Document)>) -> Document {
    Document::Object(fields.into_iter().map(|(k, v)| (k.to_string(), v)).collect())
}

fn image(filename: &str, subfolder: &str, folder_type: &str) -> Document {
    object(vec![("filename", text(filename)), ("subfolder", text(subfolder)), ("type", text(folder_type))])
}

fn image_ref(filename: &str, subfolder: &str, folder_type: &str) -> ImageRef {
    ImageRef {
        filename: filename.to_string(),
        subfolder: subfolder.to_string(),
        folder_type: folder_type.to_string(),
    }
}

fn history(prompt_id: &str, outputs: Document) -> Document {
    object(vec![(prompt_id, object(vec![("status", object(vec![])), ("outputs", outputs)]))])
}

fn two_node_history() -> Document {
    history(
        "job-1",
        object(vec![
            ("9", object(vec![("images", Document::Array(vec![image("a.png", "", "output"), image("b.png", "sub", "temp")]))])),
            ("12", object(vec![("text", text("no images here"))])),
            ("15", object(vec![("images", Document::Array(vec![image("c.png", "x", "output")]))])),
        ]),
    )
}

fn seeded(prompt_id: &str, status: TaskStatus) -> Registry {
    let mut registry = Registry::new();
    update_task_status(&mut registry, prompt_id, status);
    registry
}

#[test]
fn history_lists_the_images_of_every_node_in_order() {
    assert_eq!(
        read_history(&two_node_history(), "job-1"),
        Ok(Some(vec![
            image_ref("a.png", "", "output"),
            image_ref("b.png", "sub", "temp"),
            image_ref("c.png", "x", "output")
        ]))
    );
}

#[test]
fn history_without_the_job_holds_nothing_yet() {
    assert_eq!(read_history(&two_node_history(), "job-2"), Ok(None));
    assert_eq!(read_history(&object(vec![]), "job-1"), Ok(None));
    assert_eq!(read_history(&Document::Null, "job-1"), Ok(None));
    assert_eq!(read_history(&Document::Array(vec![]), "job-1"), Ok(None));
}

#[test]
fn history_without_outputs_is_malformed() {
    let no_outputs = object(vec![("job-1", object(vec![("status", object(vec![]))]))]);
    assert_eq!(read_history(&no_outputs, "job-1"), Err(FetchError::OutputsNotFound));
    assert_eq!(read_history(&history("job-1", Document::Array(vec![])), "job-1"), Err(FetchError::OutputsNotFound));
    assert_eq!(read_history(&history("job-1", Document::Null), "job-1"), Err(FetchError::OutputsNotFound));
    assert_eq!(read_history(&object(vec![("job-1", text("x"))]), "job-1"), Err(FetchError::OutputsNotFound));
}

#[test]
fn history_with_images_that_are_no_list_is_malformed() {
    let doc = history("job-1", object(vec![("9", object(vec![("images", text("a.png"))]))]));
    assert_eq!(read_history(&doc, "job-1"), Err(FetchError::ImagesNotArray));
}

#[test]
fn history_image_without_a_field_is_malformed() {
    let missing = |fields: Vec<(&str, Document)>| {
        history("job-1", object(vec![("9", object(vec![("images", Document::Array(vec![object(fields)]))]))]))
    };
    assert_eq!(
        read_history(&missing(vec![("subfolder", text("")), ("type", text("output"))]), "job-1"),
        Err(FetchError::FilenameMissing)
    );
    assert_eq!(
        read_history(&missing(vec![("filename", text("a.png")), ("type", text("output"))]), "job-1"),
        Err(FetchError::SubfolderMissing)
    );
    assert_eq!(
        read_history(&missing(vec![("filename", text("a.png")), ("subfolder", text(""))]), "job-1"),
        Err(FetchError::TypeMissing)
    );
    assert_eq!(
        read_history(
            &missing(vec![("filename", Document::Number(Number::PosInt(1))), ("subfolder", text("")), ("type", text("t"))]),
            "job-1"
        ),
        Err(FetchError::FilenameMissing)
    );
    assert_eq!(read_history(&missing(vec![]), "job-1"), Err(FetchError::FilenameMissing));
}

#[test]
fn history_reports_the_first_error_in_order() {
    let doc = history(
        "job-1",
        object(vec![
            ("9", object(vec![("images", Document::Array(vec![image("a.png", "", "output"), object(vec![("filename", text("b"))])]))])),
            ("15", object(vec![("images", text("not a list"))])),
        ]),
    );
    assert_eq!(read_history(&doc, "job-1"), Err(FetchError::SubfolderMissing));
}

#[test]
fn history_with_nodes_without_images_lists_none() {
    let doc = history("job-1", object(vec![("9", object(vec![])), ("10", text("x"))]));
    assert_eq!(read_history(&doc, "job-1"), Ok(Some(vec![])));
    assert_eq!(read_history(&history("job-1", object(vec![])), "job-1"), Ok(Some(vec![])));
}

#[test]
fn resolve_unknown_job_is_an_error() {
    let registry = Registry::new();
    let (poll, action) = Resolver::start(&registry, "/var/img", "unknown-id");
    assert_eq!(action, Action::Finish(Err(FetchError::UnknownTask)));
    assert!(poll.is_finished());
}

#[test]
fn resolve_asks_local_storage_first() {
    let registry = seeded("job-1", TaskStatus::Executing);
    let (poll, action) = Resolver::start(&registry, "/var/img", "job-1");
    assert_eq!(action, Action::ProbeArtifact("/var/img/job-1.png".to_string()));
    assert!(!poll.is_finished());
}

#[test]
fn resolve_twice_with_the_artifact_on_storage_gives_the_same_name() {
    let client = SD3Client::new("host:1");
    let mut registry = seeded("job-1", TaskStatus::ExecutionSuccess);
    for _ in 0..2 {
        let (poll, action) = Resolver::start(&registry, "/var/img", "job-1");
        assert_eq!(action, Action::ProbeArtifact("/var/img/job-1.png".to_string()));
        let (poll, action) = poll.advance(&client, &mut registry, Reply::Artifact(true));
        assert_eq!(action, Action::Finish(Ok((TaskStatus::ExecutionSuccess, "job-1.png".to_string()))));
        assert!(poll.is_finished());
    }
    assert_eq!(get_task_status(&registry, "job-1"), Some(TaskStatus::ExecutionSuccess));
    assert_eq!(registry.len(), 1);
}

#[test]
fn resolve_before_the_history_exists_answers_with_an_empty_name() {
    let client = SD3Client::new("host:1");
    let mut registry = seeded("job-1", TaskStatus::Executing);
    let (poll, _) = Resolver::start(&registry, "/var/img", "job-1");
    let (poll, action) = poll.advance(&client, &mut registry, Reply::Artifact(false));
    assert_eq!(action, Action::FetchHistory("http://host:1/api/history/job-1".to_string()));
    let (poll, action) = poll.advance(&client, &mut registry, Reply::History(Some(object(vec![]))));
    assert_eq!(action, Action::Finish(Ok((TaskStatus::Executing, String::new()))));
    assert!(poll.is_finished());
    assert_eq!(get_task_status(&registry, "job-1"), Some(TaskStatus::Executing));
}

#[test]
fn resolve_fetches_every_image_and_saves_their_bytes_in_order() {
    let client = SD3Client::new("host:1");
    let mut registry = seeded("job-1", TaskStatus::Executed);
    let (poll, _) = Resolver::start(&registry, "/var/img", "job-1");
    let (poll, _) = poll.advance(&client, &mut registry, Reply::Artifact(false));
    let (poll, action) = poll.advance(&client, &mut registry, Reply::History(Some(two_node_history())));
    assert_eq!(action, Action::FetchImage("http://host:1/view?filename=a.png&subfolder=&type=output".to_string()));
    let (poll, action) = poll.advance(&client, &mut registry, Reply::Image(Some(vec![1, 2])));
    assert_eq!(action, Action::FetchImage("http://host:1/view?filename=b.png&subfolder=sub&type=temp".to_string()));
    let (poll, action) = poll.advance(&client, &mut registry, Reply::Image(Some(vec![])));
    assert_eq!(action, Action::FetchImage("http://host:1/view?filename=c.png&subfolder=x&type=output".to_string()));
    assert_eq!(get_task_status(&registry, "job-1"), Some(TaskStatus::Executed));
    let (poll, action) = poll.advance(&client, &mut registry, Reply::Image(Some(vec![3, 4, 5])));
    assert_eq!(action, Action::SaveArtifact("/var/img/job-1.png".to_string(), vec![1, 2, 3, 4, 5]));
    assert!(!poll.is_finished());
    assert_eq!(get_task_status(&registry, "job-1"), Some(TaskStatus::Executed));
    let (poll, action) = poll.advance(&client, &mut registry, Reply::Saved(true));
    assert_eq!(action, Action::Finish(Ok((TaskStatus::Executed, "job-1.png".to_string()))));
    assert!(poll.is_finished());
    assert_eq!(get_task_status(&registry, "job-1"), Some(TaskStatus::ExecutionSuccess));
}

#[test]
fn resolve_with_a_failed_write_does_not_advance_the_registry() {
    let client = SD3Client::new("host:1");
    let mut registry = seeded("job-1", TaskStatus::Executed);
    let (poll, _) = Resolver::start(&registry, "/var/img", "job-1");
    let (poll, _) = poll.advance(&client, &mut registry, Reply::Artifact(false));
    let one_image = history("job-1", object(vec![("9", object(vec![("images", Document::Array(vec![image("a.png", "", "output")]))]))]));
    let (poll, _) = poll.advance(&client, &mut registry, Reply::History(Some(one_image)));
    let (poll, action) = poll.advance(&client, &mut registry, Reply::Image(Some(vec![9])));
    assert_eq!(action, Action::SaveArtifact("/var/img/job-1.png".to_string(), vec![9]));
    let (poll, action) = poll.advance(&client, &mut registry, Reply::Saved(false));
    assert_eq!(action, Action::Finish(Err(FetchError::Storage)));
    assert!(poll.is_finished());
    assert_eq!(get_task_status(&registry, "job-1"), Some(TaskStatus::Executed));
}

#[test]
fn resolve_with_a_failed_image_request_aborts() {
    let client = SD3Client::new("host:1");
    let mut registry = seeded("job-1", TaskStatus::Executed);
    let (poll, _) = Resolver::start(&registry, "/var/img", "job-1");
    let (poll, _) = poll.advance(&client, &mut registry, Reply::Artifact(false));
    let (poll, _) = poll.advance(&client, &mut registry, Reply::History(Some(two_node_history())));
    let (poll, _) = poll.advance(&client, &mut registry, Reply::Image(Some(vec![1])));
    let (poll, action) = poll.advance(&client, &mut registry, Reply::Image(None));
    assert_eq!(action, Action::Finish(Err(FetchError::Transport)));
    assert!(poll.is_finished());
    assert_eq!(get_task_status(&registry, "job-1"), Some(TaskStatus::Executed));
}

#[test]
fn resolve_with_a_failed_history_request_aborts() {
    let client = SD3Client::new("host:1");
    let mut registry = seeded("job-1", TaskStatus::Executed);
    let (poll, _) = Resolver::start(&registry, "/var/img", "job-1");
    let (poll, _) = poll.advance(&client, &mut registry, Reply::Artifact(false));
    let (_, action) = poll.advance(&client, &mut registry, Reply::History(None));
    assert_eq!(action, Action::Finish(Err(FetchError::Transport)));
    assert_eq!(get_task_status(&registry, "job-1"), Some(TaskStatus::Executed));
}

#[test]
fn resolve_with_a_malformed_history_fails() {
    let client = SD3Client::new("host:1");
    let mut registry = seeded("job-1", TaskStatus::Executed);
    let (poll, _) = Resolver::start(&registry, "/var/img", "job-1");
    let (poll, _) = poll.advance(&client, &mut registry, Reply::Artifact(false));
    let malformed = object(vec![("job-1", object(vec![]))]);
    let (_, action) = poll.advance(&client, &mut registry, Reply::History(Some(malformed)));
    assert_eq!(action, Action::Finish(Err(FetchError::OutputsNotFound)));
    assert_eq!(get_task_status(&registry, "job-1"), Some(TaskStatus::Executed));
}

#[test]
fn resolve_of_a_job_without_images_is_done_without_a_write() {
    let client = SD3Client::new("host:1");
    let mut registry = seeded("job-1", TaskStatus::Executed);
    let (poll, _) = Resolver::start(&registry, "/var/img", "job-1");
    let (poll, _) = poll.advance(&client, &mut registry, Reply::Artifact(false));
    let (poll, action) = poll.advance(&client, &mut registry, Reply::History(Some(history("job-1", object(vec![])))));
    assert_eq!(action, Action::Finish(Ok((TaskStatus::Executed, "job-1.png".to_string()))));
    assert!(poll.is_finished());
    assert_eq!(get_task_status(&registry, "job-1"), Some(TaskStatus::ExecutionSuccess));
}

#[test]
fn resolve_refuses_an_answer_out_of_turn() {
    let client = SD3Client::new("host:1");
    let mut registry = seeded("job-1", TaskStatus::Executed);
    let (poll, _) = Resolver::start(&registry, "/var/img", "job-1");
    let (poll, action) = poll.advance(&client, &mut registry, Reply::Saved(true));
    assert_eq!(action, Action::Finish(Err(FetchError::OutOfTurn)));
    assert_eq!(get_task_status(&registry, "job-1"), Some(TaskStatus::Executed));
    let (_, action) = poll.advance(&client, &mut registry, Reply::Artifact(true));
    assert_eq!(action, Action::Finish(Err(FetchError::OutOfTurn)));
}

#[test]
fn resolve_saves_any_number_of_images_in_their_order() {
    for count in 1..6usize {
        let client = SD3Client::new("host:1");
        let mut registry = seeded("job-1", TaskStatus::Executed);
        let entries: Vec<Document> = (0..count).map(|i| image(&format!("{}.png", i), "", "output")).collect();
        let doc = history("job-1", object(vec![("9", object(vec![("images", Document::Array(entries))]))]));
        let (poll, _) = Resolver::start(&registry, "/var/img", "job-1");
        let (poll, _) = poll.advance(&client, &mut registry, Reply::Artifact(false));
        let (mut poll, mut action) = poll.advance(&client, &mut registry, Reply::History(Some(doc)));
        let mut expected: Vec<u8> = Vec::new();
        for i in 0..count {
            assert_eq!(
                action,
                Action::FetchImage(format!("http://host:1/view?filename={}.png&subfolder=&type=output", i))
            );
            let bytes = vec![i as u8; i + 1];
            expected.extend_from_slice(&bytes);
            (poll, action) = poll.advance(&client, &mut registry, Reply::Image(Some(bytes)));
            assert_eq!(get_task_status(&registry, "job-1"), Some(TaskStatus::Executed));
        }
        assert_eq!(action, Action::SaveArtifact("/var/img/job-1.png".to_string(), expected));
        let (_, action) = poll.advance(&client, &mut registry, Reply::Saved(true));
        assert_eq!(action, Action::Finish(Ok((TaskStatus::Executed, "job-1.png".to_string()))));
        assert_eq!(get_task_status(&registry, "job-1"), Some(TaskStatus::ExecutionSuccess));
    }
}
