//! What the endpoints of the service decide: which request is taken, what
//! is sent to the compute service, and what is written back.

use crate::config::Config;
use crate::document::{Document, Json, Number};
use crate::registry::{update_task_status, Registry};
use crate::resolver::FetchError;
use crate::result::{CqResult, Nothing};
use crate::sd3::{
    configured, lemma_materialized_holds_prompt_and_steps, materialized, prompt_id_in,
    prompt_id_of, prompt_node, steps_node, ImagineRequest, ImagineView, SD3Client, TemplateError,
};
use crate::status::TaskStatus;
use crate::text::{blank, is_blank, joined, texts_of};
use vstd::prelude::*;

verus! {

/// The body of a submission.
pub struct ImaRequest {
    pub base64_array: Option<Vec<String>>,
    pub prompt: String,
    pub author: String,
    pub style: String,
    pub steps: Option<i32>,
    pub workflow: Option<Document>,
}

/// The mathematical value of an [`ImaRequest`].
pub struct ImaView {
    pub base64_array: Option<Seq<Seq<char>>>,
    pub prompt: Seq<char>,
    pub author: Seq<char>,
    pub style: Seq<char>,
    pub steps: Option<i32>,
    pub workflow: Option<Json>,
}

impl View for ImaRequest {
    type V = ImaView;

    open spec fn view(&self) -> ImaView {
        ImaView {
            base64_array: match self.base64_array {
                Some(images) => Some(texts_of(images@)),
                None => None,
            },
            prompt: self.prompt@,
            author: self.author@,
            style: self.style@,
            steps: self.steps,
            workflow: match self.workflow {
                Some(doc) => Some(doc@),
                None => None,
            },
        }
    }
}

/// Why a submission failed.
#[derive(Debug, Clone, Copy, PartialEq, Eq, Structural)]
pub enum SubmitFailure {
    /// The author, the prompt or the style is blank.
    InvalidRequest,
    /// There is no template to make the job document from.
    NoWorkflow,
    /// The template lacks a node.
    Template(TemplateError),
    /// The compute service could not be reached or did not answer.
    Transport,
    /// The compute service named no job.
    NoPromptId,
}

/// The answer to a poll.
#[derive(Debug, PartialEq, Eq)]
pub struct TaskView {
    pub task_state: TaskStatus,
    pub img_url: String,
}

/// What is written back to a poll.
#[derive(Debug, PartialEq, Eq)]
pub enum FetchReply {
    /// The job is not done yet.
    Pending(CqResult<String>),
    /// The job is done, and this is its status and where its image is.
    Finished(CqResult<TaskView>),
    /// The poll failed.
    Failed(CqResult<Nothing>),
}

/// The step count of a submission that names none.
pub fn default_steps() -> (steps: Option<i32>)
    ensures
        steps == Some(4i32),
{
    Some(4)
}

/// The job that a submission asks for: its prompt is the prompt and the style
/// of the submission with a comma between them, its step count the one of
/// the submission or else 4, and the rest is what the configuration says.
pub open spec fn imagine_of(request: ImaView, workflow: Json, config: Config) -> ImagineView {
    ImagineView {
        prompt: request.prompt + ","@ + request.style,
        steps: match request.steps {
            Some(steps) => steps,
            None => 4i32,
        },
        workflow,
        sd3_model_file: config.sd3_model_file_name@,
        sd3_clip_name1: config.sd3_clip_name1@,
        sd3_clip_name2: config.sd3_clip_name2@,
        sd3_clip_name3: config.sd3_clip_name3@,
    }
}

/// The job document that a submission is sent as, under a given workflow ID.
/// A submission with a blank author, prompt or style is refused before
/// anything else is looked at.
pub open spec fn planned(request: ImaView, config: Config, workflow_id: Seq<char>) -> Result<
    Json,
    SubmitFailure,
> {
    if blank(request.author) || blank(request.prompt) || blank(request.style) {
        Err(SubmitFailure::InvalidRequest)
    } else {
        match request.workflow {
            None => Err(SubmitFailure::NoWorkflow),
            Some(workflow) => match materialized(
                imagine_of(request, workflow, config),
                workflow_id,
                config.sd3_client_id@,
            ) {
                Ok(doc) => Ok(doc),
                Err(e) => Err(SubmitFailure::Template(e)),
            },
        }
    }
}

/// The value of a job document or the failure in its place.
pub open spec fn plan_view(outcome: Result<Document, SubmitFailure>) -> Result<
    Json,
    SubmitFailure,
> {
    match outcome {
        Ok(doc) => Ok(doc@),
        Err(e) => Err(e),
    }
}

/// Checks a submission and makes the job document to send, under a fresh
/// workflow ID and the client ID of the configuration. A well-formed
/// template gives a well-formed job document.
pub fn plan_submission(request: ImaRequest, config: &Config) -> (outcome: Result<
    Document,
    SubmitFailure,
>)
    ensures
        exists|workflow_id: Seq<char>|
            workflow_id.len() == 36 && plan_view(outcome) == #[trigger] planned(
                request@,
                *config,
                workflow_id,
            ),
        match (request@.workflow, outcome) {
            (Some(workflow), Ok(doc)) => workflow.well_formed() ==> doc@.well_formed(),
            _ => true,
        },
{
    if is_blank(request.author.as_str()) || is_blank(request.prompt.as_str()) || is_blank(
        request.style.as_str(),
    ) {
        assert(plan_view(Err(SubmitFailure::InvalidRequest)) == planned(
            request@,
            *config,
            Seq::new(36, |i: int| ' '),
        ));
        return Err(SubmitFailure::InvalidRequest);
    }
    let head: String = joined(request.prompt.as_str(), ",");
    let prompt: String = joined(head.as_str(), request.style.as_str());
    let steps: i32 = match request.steps {
        Some(steps) => steps,
        None => 4,
    };
    let ghost asked = request@;
    let workflow: Document = match request.workflow {
        Some(workflow) => workflow,
        None => {
            assert(plan_view(Err(SubmitFailure::NoWorkflow)) == planned(
                asked,
                *config,
                Seq::new(36, |i: int| ' '),
            ));
            return Err(SubmitFailure::NoWorkflow);
        },
    };
    let imagine = ImagineRequest {
        prompt,
        steps,
        workflow,
        sd3_model_file: config.sd3_model_file_name.clone(),
        sd3_clip_name1: config.sd3_clip_name1.clone(),
        sd3_clip_name2: config.sd3_clip_name2.clone(),
        sd3_clip_name3: config.sd3_clip_name3.clone(),
    };
    assert(imagine@ == imagine_of(asked, imagine.workflow@, *config));
    let built = SD3Client::prepare_imagine(&imagine, config.sd3_client_id.as_str());
    let ghost workflow_id = choose|workflow_id: Seq<char>|
        workflow_id.len() == 36 && crate::sd3::outcome_view(built) == #[trigger] materialized(
            imagine@,
            workflow_id,
            config.sd3_client_id@,
        );
    let outcome = match built {
        Ok(doc) => Ok(doc),
        Err(e) => Err(SubmitFailure::Template(e)),
    };
    assert(plan_view(outcome) == planned(asked, *config, workflow_id));
    outcome
}

/// Takes the reply of the compute service to a submission in: where it names
/// a job, the job is recorded as submitted and its ID is handed out. Where it
/// names none, the registry stays as it was.
pub fn accept_submission(registry: &mut Registry, reply: &Document) -> (outcome: Result<
    String,
    SubmitFailure,
>)
    ensures
        match outcome {
            Ok(id) => {
                &&& prompt_id_in(reply@) == Some(id@)
                &&& final(registry)@ == old(registry)@.insert(id@, TaskStatus::Submited)
            },
            Err(e) => {
                &&& e == SubmitFailure::NoPromptId
                &&& prompt_id_in(reply@) is None
                &&& final(registry)@ == old(registry)@
            },
        },
{
    match prompt_id_of(reply) {
        Ok(id) => {
            let _ = update_task_status(registry, id.as_str(), TaskStatus::Submited);
            Ok(id)
        },
        Err(_) => Err(SubmitFailure::NoPromptId),
    }
}

impl SubmitFailure {
    /// What is written back for a failed submission.
    pub open spec fn spec_message(self) -> Seq<char> {
        match self {
            SubmitFailure::InvalidRequest => "author prompt style can not be empty"@,
            _ => "submit task failed , please check your prompt"@,
        }
    }

    /// The reply to a failed submission: code 500 and a message that tells a
    /// refused request from a failed one.
    pub fn reply(self) -> (reply: CqResult<Nothing>)
        ensures
            reply.code == 500,
            reply.message@ == self.spec_message(),
            reply.data is None,
    {
        match self {
            SubmitFailure::InvalidRequest => CqResult::error(
                500,
                "author prompt style can not be empty",
            ),
            _ => CqResult::error(500, "submit task failed , please check your prompt"),
        }
    }
}

/// The reply to a submission that the compute service took.
pub fn submitted_reply(prompt_id: String) -> (reply: CqResult<String>)
    ensures
        reply.code == 200,
        reply.message@ == "Success"@,
        reply.data == Some(prompt_id),
{
    CqResult::success(prompt_id)
}

/// What is written back to a poll: a failure for an error, a notice for a
/// job without an artifact yet, and else the status with the address of the
/// image, which is the artifact's file name below `img_tmp_point`.
pub fn fetch_reply(outcome: Result<(TaskStatus, String), FetchError>, img_tmp_point: &str) -> (reply:
    FetchReply)
    ensures
        match outcome {
            Err(_) => {
                &&& reply matches FetchReply::Failed(r)
                &&& r.code == 500
                &&& r.message@ == "fetch task failed , please check your prompt_id"@
                &&& r.data is None
            },
            Ok((state, name)) => if name@.len() == 0 {
                &&& reply matches FetchReply::Pending(r)
                &&& r.code == 200
                &&& r.message@ == "Success"@
                &&& r.data matches Some(notice)
                &&& notice@ == "task is not finish yet"@
            } else {
                &&& reply matches FetchReply::Finished(r)
                &&& r.code == 200
                &&& r.message@ == "Success"@
                &&& r.data matches Some(task)
                &&& task.task_state == state
                &&& task.img_url@ == img_tmp_point@ + "/"@ + name@
            },
        },
{
    match outcome {
        Err(_) => FetchReply::Failed(
            CqResult::error(500, "fetch task failed , please check your prompt_id"),
        ),
        Ok((state, name)) => {
            if name.as_str().is_empty() {
                FetchReply::Pending(CqResult::success("task is not finish yet".to_owned()))
            } else {
                let root: String = joined(img_tmp_point, "/");
                let img_url: String = joined(root.as_str(), name.as_str());
                FetchReply::Finished(CqResult::success(TaskView { task_state: state, img_url }))
            }
        },
    }
}

/// The HTTP status under which a reply is sent: 200 for a reply with code
/// 200, and 400 for any other.
pub fn http_status(code: i32) -> (status: u16)
    ensures
        status == if code == 200 {
            200u16
        } else {
            400u16
        },
{
    if code == 200 {
        200
    } else {
        400
    }
}

/// The job document of every submission that is taken holds, in the node
/// for the prompt text, the prompt and the style of the submission with a
/// comma between them, with the placeholders in it replaced like everywhere
/// else, and in the node for the step count the step count of the
/// submission, or 4 where it names none.
pub proof fn lemma_planned_holds_prompt_and_steps(
    request: ImaView,
    config: Config,
    workflow_id: Seq<char>,
)
    requires
        planned(request, config, workflow_id) is Ok,
    ensures
        planned(request, config, workflow_id)->Ok_0.reach(prompt_node().push("text"@)) == Some(
            configured(
                Json::Text(request.prompt + ","@ + request.style),
                config.sd3_model_file_name@,
                config.sd3_clip_name1@,
                config.sd3_clip_name2@,
                config.sd3_clip_name3@,
                config.sd3_client_id@,
                workflow_id,
            ),
        ),
        planned(request, config, workflow_id)->Ok_0.reach(steps_node().push("steps"@)) == Some(
            Json::Number(
                Number::spec_from_i32(
                    match request.steps {
                        Some(steps) => steps,
                        None => 4i32,
                    },
                ),
            ),
        ),
{
    let workflow = request.workflow->Some_0;
    lemma_materialized_holds_prompt_and_steps(
        imagine_of(request, workflow, config),
        workflow_id,
        config.sd3_client_id@,
    );
}

} // verus!
