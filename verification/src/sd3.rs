//! The client side of the compute service: where its endpoints are, how a
//! job document is made from a template, and what its replies hold.

use crate::document::{path_view, Document, Json, Number};
use crate::ident::fresh_uuid;
use crate::template::{
    lemma_substituted_reach, lemma_written_keeps_other, lemma_written_reads_back,
    replace_placeholder, substituted, written,
};
use crate::text::joined;
use vstd::prelude::*;

verus! {

/// The address of the compute service.
pub struct SD3Client {
    server_address: String,
}

/// One image generation job, ready to be made into a job document.
pub struct ImagineRequest {
    pub prompt: String,
    pub steps: i32,
    pub workflow: Document,
    pub sd3_model_file: String,
    pub sd3_clip_name1: String,
    pub sd3_clip_name2: String,
    pub sd3_clip_name3: String,
}

/// The mathematical value of an [`ImagineRequest`].
pub struct ImagineView {
    pub prompt: Seq<char>,
    pub steps: i32,
    pub workflow: Json,
    pub sd3_model_file: Seq<char>,
    pub sd3_clip_name1: Seq<char>,
    pub sd3_clip_name2: Seq<char>,
    pub sd3_clip_name3: Seq<char>,
}

impl View for ImagineRequest {
    type V = ImagineView;

    open spec fn view(&self) -> ImagineView {
        ImagineView {
            prompt: self.prompt@,
            steps: self.steps,
            workflow: self.workflow@,
            sd3_model_file: self.sd3_model_file@,
            sd3_clip_name1: self.sd3_clip_name1@,
            sd3_clip_name2: self.sd3_clip_name2@,
            sd3_clip_name3: self.sd3_clip_name3@,
        }
    }
}

/// Why a template could not be made into a job document.
#[derive(Debug, Clone, Copy, PartialEq, Eq, Structural)]
pub enum TemplateError {
    /// The template has no node to take the prompt text.
    PromptNodeMissing,
    /// The template has no node to take the step count.
    StepsNodeMissing,
}

/// Why the reply to a submission names no job.
#[derive(Debug, Clone, Copy, PartialEq, Eq, Structural)]
pub enum SubmitError {
    /// The reply holds no job ID.
    NoPromptId,
}

impl TemplateError {
    /// What the error says.
    pub fn message(self) -> (text: &'static str)
        ensures
            text@ == match self {
                TemplateError::PromptNodeMissing => "template has no node for the prompt text"@,
                TemplateError::StepsNodeMissing => "template has no node for the step count"@,
            },
    {
        match self {
            TemplateError::PromptNodeMissing => "template has no node for the prompt text",
            TemplateError::StepsNodeMissing => "template has no node for the step count",
        }
    }
}

impl SubmitError {
    /// What the error says.
    pub fn message(self) -> (text: &'static str)
        ensures
            text@ == "submit task failed: No prompt_id found"@,
    {
        match self {
            SubmitError::NoPromptId => "submit task failed: No prompt_id found",
        }
    }
}

/// The address of the endpoint that takes a job document.
pub open spec fn prompt_url_of(server: Seq<char>) -> Seq<char> {
    "http://"@ + server + "/api/prompt"@
}

/// The address of the history of a job.
pub open spec fn history_url_of(server: Seq<char>, prompt_id: Seq<char>) -> Seq<char> {
    "http://"@ + server + "/api/history/"@ + prompt_id
}

/// The address of an output image.
pub open spec fn view_url_of(
    server: Seq<char>,
    filename: Seq<char>,
    subfolder: Seq<char>,
    folder_type: Seq<char>,
) -> Seq<char> {
    "http://"@ + server + "/view?filename="@ + filename + "&subfolder="@ + subfolder + "&type="@
        + folder_type
}

/// The object of the template that takes the prompt text.
pub open spec fn prompt_node() -> Seq<Seq<char>> {
    seq!["prompt"@, "6"@, "inputs"@]
}

/// The object of the template that takes the step count.
pub open spec fn steps_node() -> Seq<Seq<char>> {
    seq!["prompt"@, "294"@, "inputs"@]
}

/// The document after the six placeholders were replaced, in this order:
/// model file, the three clip names, client ID, workflow ID.
pub open spec fn configured(
    doc: Json,
    model_file: Seq<char>,
    clip_name1: Seq<char>,
    clip_name2: Seq<char>,
    clip_name3: Seq<char>,
    client_id: Seq<char>,
    workflow_id: Seq<char>,
) -> Json {
    let d1 = substituted(doc, "${model_name}"@, model_file);
    let d2 = substituted(d1, "${sd3_clip_name1}"@, clip_name1);
    let d3 = substituted(d2, "${sd3_clip_name2}"@, clip_name2);
    let d4 = substituted(d3, "${sd3_clip_name3}"@, clip_name3);
    let d5 = substituted(d4, "${client_id}"@, client_id);
    substituted(d5, "${workflow_id}"@, workflow_id)
}

/// The job document of a request: the prompt text and the step count are
/// written into their nodes, then the placeholders are replaced. A template
/// without one of the two nodes gives an error and no document.
pub open spec fn materialized(
    imagine: ImagineView,
    workflow_id: Seq<char>,
    client_id: Seq<char>,
) -> Result<Json, TemplateError> {
    match written(imagine.workflow, prompt_node(), "text"@, Json::Text(imagine.prompt)) {
        None => Err(TemplateError::PromptNodeMissing),
        Some(with_prompt) => match written(
            with_prompt,
            steps_node(),
            "steps"@,
            Json::Number(Number::spec_from_i32(imagine.steps)),
        ) {
            None => Err(TemplateError::StepsNodeMissing),
            Some(with_steps) => Ok(
                configured(
                    with_steps,
                    imagine.sd3_model_file,
                    imagine.sd3_clip_name1,
                    imagine.sd3_clip_name2,
                    imagine.sd3_clip_name3,
                    client_id,
                    workflow_id,
                ),
            ),
        },
    }
}

/// The value of a document or the error in its place.
pub open spec fn outcome_view(outcome: Result<Document, TemplateError>) -> Result<
    Json,
    TemplateError,
> {
    match outcome {
        Ok(doc) => Ok(doc@),
        Err(e) => Err(e),
    }
}

/// The job ID that the reply to a submission holds: the member `prompt_id`,
/// where it is a string.
pub open spec fn prompt_id_in(reply: Json) -> Option<Seq<char>> {
    match reply.member("prompt_id"@) {
        Some(Json::Text(id)) => Some(id),
        _ => None,
    }
}

/// Makes the job document of a request. A well-formed template gives a
/// well-formed job document.
pub fn build_workflow(imagine: &ImagineRequest, workflow_id: &str, client_id: &str) -> (outcome:
    Result<Document, TemplateError>)
    ensures
        outcome_view(outcome) == materialized(imagine@, workflow_id@, client_id@),
        imagine@.workflow.well_formed() ==> (outcome matches Ok(doc) ==> doc@.well_formed()),
{
    let prompt_at: [&str; 3] = ["prompt", "6", "inputs"];
    let steps_at: [&str; 3] = ["prompt", "294", "inputs"];
    assert(path_view(prompt_at@) =~= prompt_node());
    assert(path_view(steps_at@) =~= steps_node());
    let with_prompt: Document = match imagine.workflow.set_at(
        &prompt_at,
        "text",
        Document::Text(imagine.prompt.clone()),
    ) {
        Some(doc) => doc,
        None => {
            return Err(TemplateError::PromptNodeMissing);
        },
    };
    let with_steps: Document = match with_prompt.set_at(
        &steps_at,
        "steps",
        Document::Number(Number::from_i32(imagine.steps)),
    ) {
        Some(doc) => doc,
        None => {
            return Err(TemplateError::StepsNodeMissing);
        },
    };
    let d1: Document = replace_placeholder(
        &with_steps,
        "${model_name}",
        imagine.sd3_model_file.as_str(),
    );
    let d2: Document = replace_placeholder(
        &d1,
        "${sd3_clip_name1}",
        imagine.sd3_clip_name1.as_str(),
    );
    let d3: Document = replace_placeholder(
        &d2,
        "${sd3_clip_name2}",
        imagine.sd3_clip_name2.as_str(),
    );
    let d4: Document = replace_placeholder(
        &d3,
        "${sd3_clip_name3}",
        imagine.sd3_clip_name3.as_str(),
    );
    let d5: Document = replace_placeholder(&d4, "${client_id}", client_id);
    Ok(replace_placeholder(&d5, "${workflow_id}", workflow_id))
}

/// Reads the job ID out of the reply to a submission. A reply without the
/// member `prompt_id`, or with one that is no string, is an error.
pub fn prompt_id_of(reply: &Document) -> (outcome: Result<String, SubmitError>)
    ensures
        match outcome {
            Ok(id) => prompt_id_in(reply@) == Some(id@),
            Err(e) => e == SubmitError::NoPromptId && prompt_id_in(reply@) is None,
        },
{
    match reply.get("prompt_id") {
        Some(Document::Text(id)) => Ok(id.clone()),
        _ => Err(SubmitError::NoPromptId),
    }
}

impl SD3Client {
    /// The address of the compute service.
    pub closed spec fn server(&self) -> Seq<char> {
        self.server_address@
    }

    /// A client for the compute service at `server_address`.
    pub fn new(server_address: &str) -> (client: Self)
        ensures
            client.server() == server_address@,
    {
        SD3Client { server_address: server_address.to_owned() }
    }

    /// The address of the compute service.
    pub fn server_address(&self) -> (address: &str)
        ensures
            address@ == self.server(),
    {
        self.server_address.as_str()
    }

    /// The address of the endpoint that takes a job document.
    pub fn prompt_url(&self) -> (url: String)
        ensures
            url@ == prompt_url_of(self.server()),
    {
        let base: String = joined("http://", self.server_address.as_str());
        joined(base.as_str(), "/api/prompt")
    }

    /// The address of the history of a job.
    pub fn history_url(&self, prompt_id: &str) -> (url: String)
        ensures
            url@ == history_url_of(self.server(), prompt_id@),
    {
        let base: String = joined("http://", self.server_address.as_str());
        let head: String = joined(base.as_str(), "/api/history/");
        joined(head.as_str(), prompt_id)
    }

    /// The address of an output image.
    pub fn view_url(&self, filename: &str, subfolder: &str, folder_type: &str) -> (url: String)
        ensures
            url@ == view_url_of(self.server(), filename@, subfolder@, folder_type@),
    {
        let mut url: String = joined("http://", self.server_address.as_str());
        url.append("/view?filename=");
        url.append(filename);
        url.append("&subfolder=");
        url.append(subfolder);
        url.append("&type=");
        url.append(folder_type);
        url
    }

    /// Makes the job document of a request under a fresh workflow ID. The
    /// document is the one of [`build_workflow`] for some workflow ID of 36
    /// characters.
    pub fn prepare_imagine(imagine: &ImagineRequest, client_id: &str) -> (outcome: Result<
        Document,
        TemplateError,
    >)
        ensures
            exists|workflow_id: Seq<char>|
                workflow_id.len() == 36 && outcome_view(outcome) == #[trigger] materialized(
                    imagine@,
                    workflow_id,
                    client_id@,
                ),
            imagine@.workflow.well_formed() ==> (outcome matches Ok(doc) ==> doc@.well_formed()),
    {
        let workflow_id: String = fresh_uuid();
        build_workflow(imagine, workflow_id.as_str(), client_id)
    }
}

/// What a path leads to in a configured document is what it led to before,
/// configured.
pub proof fn lemma_configured_reach(
    doc: Json,
    path: Seq<Seq<char>>,
    model_file: Seq<char>,
    clip_name1: Seq<char>,
    clip_name2: Seq<char>,
    clip_name3: Seq<char>,
    client_id: Seq<char>,
    workflow_id: Seq<char>,
)
    requires
        doc.reach(path) is Some,
    ensures
        configured(
            doc,
            model_file,
            clip_name1,
            clip_name2,
            clip_name3,
            client_id,
            workflow_id,
        ).reach(path) == Some(
            configured(
                doc.reach(path)->Some_0,
                model_file,
                clip_name1,
                clip_name2,
                clip_name3,
                client_id,
                workflow_id,
            ),
        ),
{
    let d1 = substituted(doc, "${model_name}"@, model_file);
    let d2 = substituted(d1, "${sd3_clip_name1}"@, clip_name1);
    let d3 = substituted(d2, "${sd3_clip_name2}"@, clip_name2);
    let d4 = substituted(d3, "${sd3_clip_name3}"@, clip_name3);
    let d5 = substituted(d4, "${client_id}"@, client_id);
    lemma_substituted_reach(doc, path, "${model_name}"@, model_file);
    lemma_substituted_reach(d1, path, "${sd3_clip_name1}"@, clip_name1);
    lemma_substituted_reach(d2, path, "${sd3_clip_name2}"@, clip_name2);
    lemma_substituted_reach(d3, path, "${sd3_clip_name3}"@, clip_name3);
    lemma_substituted_reach(d4, path, "${client_id}"@, client_id);
    lemma_substituted_reach(d5, path, "${workflow_id}"@, workflow_id);
}

/// In every job document the node for the prompt text holds the prompt of
/// the request, with the placeholders in it replaced like everywhere else,
/// and the node for the step count holds the step count of the request.
pub proof fn lemma_materialized_holds_prompt_and_steps(
    imagine: ImagineView,
    workflow_id: Seq<char>,
    client_id: Seq<char>,
)
    requires
        materialized(imagine, workflow_id, client_id) is Ok,
    ensures
        materialized(imagine, workflow_id, client_id)->Ok_0.reach(prompt_node().push("text"@))
            == Some(
            configured(
                Json::Text(imagine.prompt),
                imagine.sd3_model_file,
                imagine.sd3_clip_name1,
                imagine.sd3_clip_name2,
                imagine.sd3_clip_name3,
                client_id,
                workflow_id,
            ),
        ),
        materialized(imagine, workflow_id, client_id)->Ok_0.reach(steps_node().push("steps"@))
            == Some(Json::Number(Number::spec_from_i32(imagine.steps))),
{
    let prompt = Json::Text(imagine.prompt);
    let steps = Json::Number(Number::spec_from_i32(imagine.steps));
    let with_prompt = written(imagine.workflow, prompt_node(), "text"@, prompt)->Some_0;
    let with_steps = written(with_prompt, steps_node(), "steps"@, steps)->Some_0;
    let prompt_at = prompt_node().push("text"@);
    let steps_at = steps_node().push("steps"@);
    lemma_written_reads_back(imagine.workflow, prompt_node(), "text"@, prompt);
    lemma_written_reads_back(with_prompt, steps_node(), "steps"@, steps);
    assert("6"@ != "294"@) by {
        reveal_strlit("6");
        reveal_strlit("294");
        assert("6"@.len() != "294"@.len());
    }
    lemma_written_keeps_other(with_prompt, steps_node(), "steps"@, steps, prompt_at, 1);
    lemma_configured_reach(
        with_steps,
        prompt_at,
        imagine.sd3_model_file,
        imagine.sd3_clip_name1,
        imagine.sd3_clip_name2,
        imagine.sd3_clip_name3,
        client_id,
        workflow_id,
    );
    lemma_configured_reach(
        with_steps,
        steps_at,
        imagine.sd3_model_file,
        imagine.sd3_clip_name1,
        imagine.sd3_clip_name2,
        imagine.sd3_clip_name3,
        client_id,
        workflow_id,
    );
}

} // verus!
