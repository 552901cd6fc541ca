use imagine_jobs::api::{
    accept_submission, default_steps, fetch_reply, http_status, plan_submission, submitted_reply, FetchReply,
    ImaRequest, SubmitFailure, TaskView,
};
use imagine_jobs::config::Config;
use imagine_jobs::document::{Document, Number};
use imagine_jobs::registry::{get_task_status, update_task_status, Registry};
use imagine_jobs::resolver::FetchError;
use imagine_jobs::result::{CqResult, Nothing};
use imagine_jobs::sd3::TemplateError;
use imagine_jobs::status::TaskStatus;

fn text(s: &str) -> Document {
    Document::Text(s.to_string())
}

fn object(fields: Vec<(&str, Document)>) -> Document {
    Document::Object(fields.into_iter().map(|(k, v)| (k.to_string(), v)).collect())
}

fn template() -> Document {
    object(vec![
        ("client_id", text("${client_id}")),
        (
            "prompt",
            object(vec![
                ("6", object(vec![("inputs", object(vec![("text", text(""))]))])),
                ("294", object(vec![("inputs", object(vec![("steps", Document::Number(Number::PosInt(4)))]))])),
                ("4", object(vec![("inputs", object(vec![("ckpt_name", text("${model_name}"))]))])),
            ]),
        ),
    ])
}

fn config() -> Config {
    Config {
        server_addr: "127.0.0.1:8080".to_string(),
        log_level: "INFO".to_string(),
        sd3_model_file_name: "sd3.safetensors".to_string(),
        sd3_clip_name1: "clip_g".to_string(),
        sd3_clip_name2: "clip_l".to_string(),
        sd3_clip_name3: "t5xxl".to_string(),
        sd3_base_server: "10.0.0.5:8188".to_string(),
        sd3_client_id: "client-42".to_string(),
        img_tmp_point: "http://files.example/file".to_string(),
        img_tmp_path: "/var/img".to_string(),
        wf_json_path: "wf.json".to_string(),
        solana_points: vec!["https://rpc.example".to_string()],
    }
}

fn submission(prompt: &str, author: &str, style: &str, steps: Option<i32>) -> ImaRequest {
    ImaRequest {
        base64_array: None,
        prompt: prompt.to_string(),
        author: author.to_string(),
        style: style.to_string(),
        steps,
        workflow: Some(template()),
    }
}

#[test]
fn submission_is_materialized_with_prompt_style_and_steps() {
    let doc = plan_submission(submission("cat", "a", "anime", Some(8)), &config()).unwrap();
    assert_eq!(doc.find(&["prompt", "6", "inputs", "text"]), Some(&text("cat,anime")));
    assert_eq!(doc.find(&["prompt", "294", "inputs", "steps"]), Some(&Document::Number(Number::PosInt(8))));
    assert_eq!(doc.find(&["prompt", "4", "inputs", "ckpt_name"]), Some(&text("sd3.safetensors")));
    assert_eq!(doc.get("client_id"), Some(&text("client-42")));
}

#[test]
fn submission_without_steps_takes_four() {
    assert_eq!(default_steps(), Some(4));
    let doc = plan_submission(submission("cat", "a", "anime", None), &config()).unwrap();
    assert_eq!(doc.find(&["prompt", "294", "inputs", "steps"]), Some(&Document::Number(Number::PosInt(4))));
}

#[test]
fn submission_with_a_blank_field_is_refused() {
    assert_eq!(plan_submission(submission("", "a", "anime", Some(8)), &config()), Err(SubmitFailure::InvalidRequest));
    assert_eq!(plan_submission(submission("cat", "  ", "anime", Some(8)), &config()), Err(SubmitFailure::InvalidRequest));
    assert_eq!(plan_submission(submission("cat", "a", "\t\n", Some(8)), &config()), Err(SubmitFailure::InvalidRequest));
    let mut no_template = submission(" ", "a", "anime", Some(8));
    no_template.workflow = None;
    assert_eq!(plan_submission(no_template, &config()), Err(SubmitFailure::InvalidRequest));
}

#[test]
fn submission_without_a_template_fails() {
    let mut request = submission("cat", "a", "anime", Some(8));
    request.workflow = None;
    assert_eq!(plan_submission(request, &config()), Err(SubmitFailure::NoWorkflow));
}

#[test]
fn submission_with_a_template_that_lacks_a_node_fails() {
    let mut request = submission("cat", "a", "anime", Some(8));
    request.workflow = Some(object(vec![("prompt", object(vec![]))]));
    assert_eq!(
        plan_submission(request, &config()),
        Err(SubmitFailure::Template(TemplateError::PromptNodeMissing))
    );
    let mut request = submission("cat", "a", "anime", Some(8));
    request.workflow = Some(object(vec![("prompt", object(vec![("6", object(vec![("inputs", object(vec![]))]))]))]));
    assert_eq!(
        plan_submission(request, &config()),
        Err(SubmitFailure::Template(TemplateError::StepsNodeMissing))
    );
}

#[test]
fn accepted_submission_seeds_the_registry() {
    let mut registry = Registry::new();
    let reply = object(vec![("prompt_id", text("job-9")), ("number", Document::Number(Number::PosInt(3)))]);
    assert_eq!(accept_submission(&mut registry, &reply), Ok("job-9".to_string()));
    assert_eq!(get_task_status(&registry, "job-9"), Some(TaskStatus::Submited));
    assert_eq!(registry.len(), 1);
}

#[test]
fn reply_without_a_job_seeds_nothing() {
    let mut registry = Registry::new();
    update_task_status(&mut registry, "job-1", TaskStatus::Executing);
    assert_eq!(accept_submission(&mut registry, &object(vec![("error", text("bad"))])), Err(SubmitFailure::NoPromptId));
    assert_eq!(accept_submission(&mut registry, &object(vec![("prompt_id", Document::Null)])), Err(SubmitFailure::NoPromptId));
    assert_eq!(registry.len(), 1);
    assert_eq!(get_task_status(&registry, "job-1"), Some(TaskStatus::Executing));
}

#[test]
fn failed_submissions_are_answered_with_code_500() {
    assert_eq!(
        SubmitFailure::InvalidRequest.reply(),
        CqResult::<Nothing> { code: 500, message: "author prompt style can not be empty".to_string(), data: None }
    );
    let failed = CqResult::<Nothing> {
        code: 500,
        message: "submit task failed , please check your prompt".to_string(),
        data: None,
    };
    assert_eq!(SubmitFailure::NoWorkflow.reply(), failed);
    assert_eq!(SubmitFailure::Template(TemplateError::StepsNodeMissing).reply(), failed);
    assert_eq!(SubmitFailure::Transport.reply(), failed);
    assert_eq!(SubmitFailure::NoPromptId.reply(), failed);
}

#[test]
fn taken_submission_is_answered_with_the_job_id() {
    assert_eq!(
        submitted_reply("job-9".to_string()),
        CqResult { code: 200, message: "Success".to_string(), data: Some("job-9".to_string()) }
    );
}

#[test]
fn poll_of_a_finished_job_names_the_image() {
    assert_eq!(
        fetch_reply(Ok((TaskStatus::ExecutionSuccess, "job-1.png".to_string())), "http://files.example/file"),
        FetchReply::Finished(CqResult {
            code: 200,
            message: "Success".to_string(),
            data: Some(TaskView {
                task_state: TaskStatus::ExecutionSuccess,
                img_url: "http://files.example/file/job-1.png".to_string()
            }),
        })
    );
}

#[test]
fn poll_of_an_unfinished_job_says_so() {
    assert_eq!(
        fetch_reply(Ok((TaskStatus::Executing, String::new())), "http://files.example/file"),
        FetchReply::Pending(CqResult {
            code: 200,
            message: "Success".to_string(),
            data: Some("task is not finish yet".to_string()),
        })
    );
}

#[test]
fn failed_poll_is_answered_with_code_500() {
    let failed = FetchReply::Failed(CqResult {
        code: 500,
        message: "fetch task failed , please check your prompt_id".to_string(),
        data: None,
    });
    assert_eq!(fetch_reply(Err(FetchError::UnknownTask), "p"), failed);
    assert_eq!(fetch_reply(Err(FetchError::Storage), "p"), failed);
    assert_eq!(fetch_reply(Err(FetchError::FilenameMissing), "p"), failed);
}

#[test]
fn replies_are_sent_as_ok_or_bad_request() {
    assert_eq!(http_status(200), 200);
    assert_eq!(http_status(500), 400);
    assert_eq!(http_status(0), 400);
    assert_eq!(http_status(-1), 400);
}
