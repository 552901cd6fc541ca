//! Retrieval of the artifact of a job: what the history of the compute
//! service holds, and the steps from a poll to its answer.

use crate::document::{fields_view, items_view, Document, Fields, Json};
use crate::registry::{get_task_status, update_task_status, Entries, Registry};
use crate::sd3::{history_url_of, view_url_of, SD3Client};
use crate::status::TaskStatus;
use crate::text::joined;
use vstd::prelude::*;

verus! {

/// Where the compute service keeps one output image.
#[derive(Debug, PartialEq, Eq)]
pub struct ImageRef {
    pub filename: String,
    pub subfolder: String,
    pub folder_type: String,
}

/// The mathematical value of an [`ImageRef`].
pub struct ImageRefView {
    pub filename: Seq<char>,
    pub subfolder: Seq<char>,
    pub folder_type: Seq<char>,
}

impl View for ImageRef {
    type V = ImageRefView;

    open spec fn view(&self) -> ImageRefView {
        ImageRefView {
            filename: self.filename@,
            subfolder: self.subfolder@,
            folder_type: self.folder_type@,
        }
    }
}

/// Why a poll for an artifact failed.
#[derive(Debug, Clone, Copy, PartialEq, Eq, Structural)]
pub enum FetchError {
    /// The job is not on record.
    UnknownTask,
    /// The history entry of the job has no object `outputs`.
    OutputsNotFound,
    /// A node holds `images` that is no list.
    ImagesNotArray,
    /// An image has no string `filename`.
    FilenameMissing,
    /// An image has no string `subfolder`.
    SubfolderMissing,
    /// An image has no string `type`.
    TypeMissing,
    /// The compute service could not be reached or did not answer.
    Transport,
    /// The artifact could not be written to local storage.
    Storage,
    /// An answer came that the step before did not ask for.
    OutOfTurn,
}

impl FetchError {
    /// What the error says.
    pub open spec fn spec_message(self) -> Seq<char> {
        match self {
            FetchError::UnknownTask => "Failed to get task status"@,
            FetchError::OutputsNotFound => "Outputs not found"@,
            FetchError::ImagesNotArray => "Images not an array"@,
            FetchError::FilenameMissing => "Filename missing"@,
            FetchError::SubfolderMissing => "Subfolder missing"@,
            FetchError::TypeMissing => "Type missing"@,
            FetchError::Transport => "Request to the compute service failed"@,
            FetchError::Storage => "Failed to write the artifact"@,
            FetchError::OutOfTurn => "Answer out of turn"@,
        }
    }

    /// What the error says.
    pub fn message(self) -> (text: &'static str)
        ensures
            text@ == self.spec_message(),
    {
        match self {
            FetchError::UnknownTask => "Failed to get task status",
            FetchError::OutputsNotFound => "Outputs not found",
            FetchError::ImagesNotArray => "Images not an array",
            FetchError::FilenameMissing => "Filename missing",
            FetchError::SubfolderMissing => "Subfolder missing",
            FetchError::TypeMissing => "Type missing",
            FetchError::Transport => "Request to the compute service failed",
            FetchError::Storage => "Failed to write the artifact",
            FetchError::OutOfTurn => "Answer out of turn",
        }
    }
}

/// The values of a list of image references.
pub open spec fn refs_view(refs: Seq<ImageRef>) -> Seq<ImageRefView> {
    Seq::new(refs.len(), |i: int| refs[i]@)
}

/// The image that one entry of an `images` list names. Its `filename`,
/// `subfolder` and `type` are asked for in this order, and each has to be a
/// string.
pub open spec fn image_of(entry: Json) -> Result<ImageRefView, FetchError> {
    match entry.member("filename"@) {
        Some(Json::Text(filename)) => match entry.member("subfolder"@) {
            Some(Json::Text(subfolder)) => match entry.member("type"@) {
                Some(Json::Text(folder_type)) => Ok(
                    ImageRefView { filename, subfolder, folder_type },
                ),
                _ => Err(FetchError::TypeMissing),
            },
            _ => Err(FetchError::SubfolderMissing),
        },
        _ => Err(FetchError::FilenameMissing),
    }
}

/// The images of a list, in its order, or the error of the first entry that
/// names none.
pub open spec fn images_of_list(entries: Seq<Json>) -> Result<Seq<ImageRefView>, FetchError>
    decreases entries.len(),
{
    if entries.len() == 0 {
        Ok(Seq::empty())
    } else {
        match image_of(entries[0]) {
            Err(e) => Err(e),
            Ok(first) => match images_of_list(entries.skip(1)) {
                Err(e) => Err(e),
                Ok(rest) => Ok(seq![first] + rest),
            },
        }
    }
}

/// The images of one output node: those of its member `images`, and none
/// where it has no such member.
pub open spec fn images_of_node(node: Json) -> Result<Seq<ImageRefView>, FetchError> {
    match node.member("images"@) {
        None => Ok(Seq::empty()),
        Some(Json::Array(entries)) => images_of_list(entries),
        Some(_) => Err(FetchError::ImagesNotArray),
    }
}

/// The images of all output nodes, node after node, or the first error.
pub open spec fn images_of_nodes(nodes: Fields) -> Result<Seq<ImageRefView>, FetchError>
    decreases nodes.len(),
{
    if nodes.len() == 0 {
        Ok(Seq::empty())
    } else {
        match images_of_node(nodes[0].1) {
            Err(e) => Err(e),
            Ok(first) => match images_of_nodes(nodes.skip(1)) {
                Err(e) => Err(e),
                Ok(rest) => Ok(first + rest),
            },
        }
    }
}

/// The images that the history holds for a job. A history without an entry
/// for the job holds none yet. An entry has to hold an object `outputs`.
pub open spec fn history_images(history: Json, prompt_id: Seq<char>) -> Result<
    Option<Seq<ImageRefView>>,
    FetchError,
> {
    match history.member(prompt_id) {
        None => Ok(None),
        Some(entry) => match entry.member("outputs"@) {
            Some(Json::Object(nodes)) => match images_of_nodes(nodes) {
                Ok(images) => Ok(Some(images)),
                Err(e) => Err(e),
            },
            _ => Err(FetchError::OutputsNotFound),
        },
    }
}

/// The value of a list of images or the error in its place.
pub open spec fn images_view(outcome: Result<Vec<ImageRef>, FetchError>) -> Result<
    Seq<ImageRefView>,
    FetchError,
> {
    match outcome {
        Ok(refs) => Ok(refs_view(refs@)),
        Err(e) => Err(e),
    }
}

/// Reads one entry of an `images` list.
fn read_image(entry: &Document) -> (outcome: Result<ImageRef, FetchError>)
    ensures
        match outcome {
            Ok(image) => image_of(entry@) == Ok::<ImageRefView, FetchError>(image@),
            Err(e) => image_of(entry@) == Err::<ImageRefView, FetchError>(e),
        },
{
    let filename: String = match entry.get("filename") {
        Some(Document::Text(s)) => s.clone(),
        _ => {
            return Err(FetchError::FilenameMissing);
        },
    };
    let subfolder: String = match entry.get("subfolder") {
        Some(Document::Text(s)) => s.clone(),
        _ => {
            return Err(FetchError::SubfolderMissing);
        },
    };
    let folder_type: String = match entry.get("type") {
        Some(Document::Text(s)) => s.clone(),
        _ => {
            return Err(FetchError::TypeMissing);
        },
    };
    Ok(ImageRef { filename, subfolder, folder_type })
}

/// Reads the entries of an `images` list from `from` on.
fn read_images(entries: &Vec<Document>, from: usize) -> (outcome: Result<Vec<ImageRef>, FetchError>)
    requires
        from <= entries.len(),
    ensures
        images_view(outcome) == images_of_list(items_view(entries@).skip(from as int)),
    decreases entries.len() - from,
{
    let ghost tail = items_view(entries@).skip(from as int);
    if from == entries.len() {
        let none: Vec<ImageRef> = Vec::new();
        assert(refs_view(none@) =~= Seq::empty());
        return Ok(none);
    }
    assert(tail[0] == entries@[from as int]@);
    assert(tail.skip(1) =~= items_view(entries@).skip(from + 1));
    let first: ImageRef = match read_image(&entries[from]) {
        Ok(image) => image,
        Err(e) => {
            return Err(e);
        },
    };
    match read_images(entries, from + 1) {
        Ok(mut rest) => {
            let ghost before = rest@;
            rest.insert(0, first);
            assert(refs_view(rest@) =~= seq![first@] + refs_view(before));
            Ok(rest)
        },
        Err(e) => Err(e),
    }
}

/// Reads the images of one output node.
fn read_node(node: &Document) -> (outcome: Result<Vec<ImageRef>, FetchError>)
    ensures
        images_view(outcome) == images_of_node(node@),
{
    match node.get("images") {
        None => {
            let none: Vec<ImageRef> = Vec::new();
            assert(refs_view(none@) =~= Seq::empty());
            Ok(none)
        },
        Some(Document::Array(entries)) => {
            assert(node@.member("images"@)->Some_0->Array_0 =~= items_view(entries@));
            assert(items_view(entries@).skip(0) =~= items_view(entries@));
            read_images(entries, 0)
        },
        Some(_) => Err(FetchError::ImagesNotArray),
    }
}

/// Reads the images of the output nodes from `from` on.
fn read_nodes(nodes: &Vec<(String, Document)>, from: usize) -> (outcome: Result<
    Vec<ImageRef>,
    FetchError,
>)
    requires
        from <= nodes.len(),
    ensures
        images_view(outcome) == images_of_nodes(fields_view(nodes@).skip(from as int)),
    decreases nodes.len() - from,
{
    let ghost tail = fields_view(nodes@).skip(from as int);
    if from == nodes.len() {
        let none: Vec<ImageRef> = Vec::new();
        assert(refs_view(none@) =~= Seq::empty());
        return Ok(none);
    }
    assert(tail[0].1 == nodes@[from as int].1@);
    assert(tail.skip(1) =~= fields_view(nodes@).skip(from + 1));
    let mut first: Vec<ImageRef> = match read_node(&nodes[from].1) {
        Ok(images) => images,
        Err(e) => {
            return Err(e);
        },
    };
    match read_nodes(nodes, from + 1) {
        Ok(mut rest) => {
            let ghost head = first@;
            let ghost more = rest@;
            first.append(&mut rest);
            assert(refs_view(first@) =~= refs_view(head) + refs_view(more));
            Ok(first)
        },
        Err(e) => Err(e),
    }
}

/// The value of what a history holds for a job.
pub open spec fn history_view(outcome: Result<Option<Vec<ImageRef>>, FetchError>) -> Result<
    Option<Seq<ImageRefView>>,
    FetchError,
> {
    match outcome {
        Ok(Some(refs)) => Ok(Some(refs_view(refs@))),
        Ok(None) => Ok(None),
        Err(e) => Err(e),
    }
}

/// Reads out of a history reply the images of a job, in the order of the
/// reply: nothing where the history has no entry for the job yet, and an error
/// where the entry has not the expected shape.
pub fn read_history(history: &Document, prompt_id: &str) -> (outcome: Result<
    Option<Vec<ImageRef>>,
    FetchError,
>)
    ensures
        history_view(outcome) == history_images(history@, prompt_id@),
{
    match history.get(prompt_id) {
        None => Ok(None),
        Some(entry) => match entry.get("outputs") {
            Some(Document::Object(nodes)) => {
                assert(entry@.member("outputs"@)->Some_0->Object_0 =~= fields_view(nodes@));
                assert(fields_view(nodes@).skip(0) =~= fields_view(nodes@));
                match read_nodes(nodes, 0) {
                    Ok(images) => Ok(Some(images)),
                    Err(e) => Err(e),
                }
            },
            _ => Err(FetchError::OutputsNotFound),
        },
    }
}

/// How far a poll has come.
#[derive(Debug, Clone, Copy, PartialEq, Eq, Structural)]
pub enum Stage {
    /// Local storage is asked whether the artifact is there.
    Probing,
    /// The compute service is asked for the history of the job.
    AwaitingHistory,
    /// The images are fetched, one after the other.
    FetchingImages,
    /// The artifact is written to local storage.
    Saving,
    /// The poll has its answer.
    Finished,
}

/// What a poll asks its caller to do next.
#[derive(Debug, PartialEq, Eq)]
pub enum Action {
    /// Say whether a file is at this path.
    ProbeArtifact(String),
    /// Get the history from this address.
    FetchHistory(String),
    /// Get the bytes of an image from this address.
    FetchImage(String),
    /// Write these bytes to the file at this path.
    SaveArtifact(String, Vec<u8>),
    /// Hand this answer out: the status and the file name of the artifact,
    /// which is empty while the job is not done.
    Finish(Result<(TaskStatus, String), FetchError>),
}

/// The mathematical value of an [`Action`].
pub enum ActionView {
    ProbeArtifact(Seq<char>),
    FetchHistory(Seq<char>),
    FetchImage(Seq<char>),
    SaveArtifact(Seq<char>, Seq<u8>),
    Finish(Result<(TaskStatus, Seq<char>), FetchError>),
}

impl View for Action {
    type V = ActionView;

    open spec fn view(&self) -> ActionView {
        match self {
            Action::ProbeArtifact(path) => ActionView::ProbeArtifact(path@),
            Action::FetchHistory(url) => ActionView::FetchHistory(url@),
            Action::FetchImage(url) => ActionView::FetchImage(url@),
            Action::SaveArtifact(path, bytes) => ActionView::SaveArtifact(path@, bytes@),
            Action::Finish(Ok((status, name))) => ActionView::Finish(Ok((*status, name@))),
            Action::Finish(Err(e)) => ActionView::Finish(Err(*e)),
        }
    }
}

/// What the caller found when it did what was asked.
#[derive(Debug, PartialEq, Eq)]
pub enum Reply {
    /// Whether the artifact is on local storage.
    Artifact(bool),
    /// The history reply, or nothing where the request failed.
    History(Option<Document>),
    /// The bytes of the image, or nothing where the request failed.
    Image(Option<Vec<u8>>),
    /// Whether the artifact was written.
    Saved(bool),
}

/// The mathematical value of a [`Reply`].
pub enum ReplyView {
    Artifact(bool),
    History(Option<Json>),
    Image(Option<Seq<u8>>),
    Saved(bool),
}

impl View for Reply {
    type V = ReplyView;

    open spec fn view(&self) -> ReplyView {
        match self {
            Reply::Artifact(present) => ReplyView::Artifact(*present),
            Reply::History(Some(doc)) => ReplyView::History(Some(doc@)),
            Reply::History(None) => ReplyView::History(None),
            Reply::Image(Some(bytes)) => ReplyView::Image(Some(bytes@)),
            Reply::Image(None) => ReplyView::Image(None),
            Reply::Saved(done) => ReplyView::Saved(*done),
        }
    }
}

/// A poll for the artifact of one job, between two of its steps.
pub struct Resolver {
    stage: Stage,
    state: TaskStatus,
    prompt_id: String,
    file_name: String,
    file_path: String,
    images: Vec<ImageRef>,
    next: usize,
    bytes: Vec<u8>,
}

/// The mathematical value of a [`Resolver`].
pub struct ResolverView {
    pub stage: Stage,
    /// The status of the job when the poll began.
    pub state: TaskStatus,
    pub prompt_id: Seq<char>,
    pub file_name: Seq<char>,
    pub file_path: Seq<char>,
    /// The images of the job, once the history was read.
    pub images: Seq<ImageRefView>,
    /// The index of the image that is being fetched.
    pub next: int,
    /// The bytes of the images fetched so far.
    pub bytes: Seq<u8>,
}

impl ResolverView {
    /// While images are fetched, the one in turn is one of them.
    pub open spec fn well_formed(self) -> bool {
        self.stage == Stage::FetchingImages ==> 0 <= self.next < self.images.len()
    }

    /// The same poll with its answer given.
    pub open spec fn finished(self) -> ResolverView {
        ResolverView { stage: Stage::Finished, ..self }
    }
}

/// The file name of the artifact of a job.
pub open spec fn artifact_name(prompt_id: Seq<char>) -> Seq<char> {
    prompt_id + ".png"@
}

/// The path of the artifact of a job below the directory `root`.
pub open spec fn artifact_path(root: Seq<char>, prompt_id: Seq<char>) -> Seq<char> {
    root + "/"@ + artifact_name(prompt_id)
}

/// The address of an image.
pub open spec fn image_url(server: Seq<char>, image: ImageRefView) -> Seq<char> {
    view_url_of(server, image.filename, image.subfolder, image.folder_type)
}

/// The first step of a poll. A job that is not on record has its answer at
/// once; for any other, local storage is asked first.
pub open spec fn begun(entries: Entries, root: Seq<char>, prompt_id: Seq<char>) -> (
    ResolverView,
    ActionView,
) {
    let poll = ResolverView {
        stage: Stage::Probing,
        state: TaskStatus::Submited,
        prompt_id,
        file_name: artifact_name(prompt_id),
        file_path: artifact_path(root, prompt_id),
        images: Seq::empty(),
        next: 0,
        bytes: Seq::empty(),
    };
    if entries.contains_key(prompt_id) {
        (
            ResolverView { state: entries[prompt_id], ..poll },
            ActionView::ProbeArtifact(poll.file_path),
        )
    } else {
        (poll.finished(), ActionView::Finish(Err(FetchError::UnknownTask)))
    }
}

/// One step of a poll: from where it stands and what was found, to where it
/// stands next, what to do next, and the registry after the step.
///
/// An artifact on local storage answers the poll at once. Without one the
/// history is asked for. A history without the job answers with an empty file
/// name. Else every image is fetched in turn and their bytes, one after the
/// other, are written to the artifact; a job without images has nothing
/// written. Only when that is done the job is recorded as successful. A
/// failed request or write ends the poll with an error and leaves the
/// registry as it was, and so does an answer out of turn.
pub open spec fn step(poll: ResolverView, server: Seq<char>, reply: ReplyView, entries: Entries) -> (
    ResolverView,
    ActionView,
    Entries,
) {
    match (poll.stage, reply) {
        (Stage::Probing, ReplyView::Artifact(true)) => (
            poll.finished(),
            ActionView::Finish(Ok((poll.state, poll.file_name))),
            entries,
        ),
        (Stage::Probing, ReplyView::Artifact(false)) => (
            ResolverView { stage: Stage::AwaitingHistory, ..poll },
            ActionView::FetchHistory(history_url_of(server, poll.prompt_id)),
            entries,
        ),
        (Stage::AwaitingHistory, ReplyView::History(Some(history))) => match history_images(
            history,
            poll.prompt_id,
        ) {
            Err(e) => (poll.finished(), ActionView::Finish(Err(e)), entries),
            Ok(None) => (
                poll.finished(),
                ActionView::Finish(Ok((poll.state, Seq::empty()))),
                entries,
            ),
            Ok(Some(images)) => if images.len() == 0 {
                (
                    ResolverView { images, ..poll.finished() },
                    ActionView::Finish(Ok((poll.state, poll.file_name))),
                    entries.insert(poll.prompt_id, TaskStatus::ExecutionSuccess),
                )
            } else {
                (
                    ResolverView { stage: Stage::FetchingImages, images, next: 0, ..poll },
                    ActionView::FetchImage(image_url(server, images[0])),
                    entries,
                )
            },
        },
        (Stage::AwaitingHistory, ReplyView::History(None)) => (
            poll.finished(),
            ActionView::Finish(Err(FetchError::Transport)),
            entries,
        ),
        (Stage::FetchingImages, ReplyView::Image(Some(bytes))) => if poll.next + 1
            < poll.images.len() {
            (
                ResolverView { next: poll.next + 1, bytes: poll.bytes + bytes, ..poll },
                ActionView::FetchImage(image_url(server, poll.images[poll.next + 1])),
                entries,
            )
        } else {
            (
                ResolverView { stage: Stage::Saving, bytes: poll.bytes + bytes, ..poll },
                ActionView::SaveArtifact(poll.file_path, poll.bytes + bytes),
                entries,
            )
        },
        (Stage::FetchingImages, ReplyView::Image(None)) => (
            poll.finished(),
            ActionView::Finish(Err(FetchError::Transport)),
            entries,
        ),
        (Stage::Saving, ReplyView::Saved(true)) => (
            poll.finished(),
            ActionView::Finish(Ok((poll.state, poll.file_name))),
            entries.insert(poll.prompt_id, TaskStatus::ExecutionSuccess),
        ),
        (Stage::Saving, ReplyView::Saved(false)) => (
            poll.finished(),
            ActionView::Finish(Err(FetchError::Storage)),
            entries,
        ),
        _ => (poll.finished(), ActionView::Finish(Err(FetchError::OutOfTurn)), entries),
    }
}

impl View for Resolver {
    type V = ResolverView;

    closed spec fn view(&self) -> ResolverView {
        ResolverView {
            stage: self.stage,
            state: self.state,
            prompt_id: self.prompt_id@,
            file_name: self.file_name@,
            file_path: self.file_path@,
            images: refs_view(self.images@),
            next: self.next as int,
            bytes: self.bytes@,
        }
    }
}

impl Resolver {
    #[verifier::type_invariant]
    spec fn inv(self) -> bool {
        self@.well_formed()
    }

    /// Begins a poll for the artifact of the job `prompt_id`, which is kept
    /// below the directory `img_tmp_path`.
    pub fn start(registry: &Registry, img_tmp_path: &str, prompt_id: &str) -> (first: (
        Resolver,
        Action,
    ))
        ensures
            (first.0@, first.1@) == begun(registry@, img_tmp_path@, prompt_id@),
            first.0@.well_formed(),
    {
        let file_name: String = joined(prompt_id, ".png");
        let root: String = joined(img_tmp_path, "/");
        let file_path: String = joined(root.as_str(), file_name.as_str());
        let none: Vec<ImageRef> = Vec::new();
        assert(refs_view(none@) =~= Seq::empty());
        match get_task_status(registry, prompt_id) {
            Some(state) => {
                let poll = Resolver {
                    stage: Stage::Probing,
                    state,
                    prompt_id: prompt_id.to_owned(),
                    file_name,
                    file_path: file_path.clone(),
                    images: none,
                    next: 0,
                    bytes: Vec::new(),
                };
                (poll, Action::ProbeArtifact(file_path))
            },
            None => {
                let poll = Resolver {
                    stage: Stage::Finished,
                    state: TaskStatus::Submited,
                    prompt_id: prompt_id.to_owned(),
                    file_name,
                    file_path,
                    images: none,
                    next: 0,
                    bytes: Vec::new(),
                };
                (poll, Action::Finish(Err(FetchError::UnknownTask)))
            },
        }
    }

    /// Whether the poll has its answer.
    pub fn is_finished(&self) -> (done: bool)
        ensures
            done == (self@.stage == Stage::Finished),
    {
        self.stage == Stage::Finished
    }

    /// Ends the poll with `answer`.
    fn finish(self, answer: Result<(TaskStatus, String), FetchError>) -> (last: (
        Resolver,
        Action,
    ))
        ensures
            last.0@ == self@.finished(),
            last.1 == Action::Finish(answer),
    {
        let mut poll = self;
        poll.stage = Stage::Finished;
        (poll, Action::Finish(answer))
    }

    /// The address of the image at `index`.
    fn image_url(&self, client: &SD3Client, index: usize) -> (url: String)
        requires
            index < self@.images.len(),
        ensures
            url@ == image_url(client.server(), self@.images[index as int]),
    {
        let image: &ImageRef = &self.images[index];
        client.view_url(
            image.filename.as_str(),
            image.subfolder.as_str(),
            image.folder_type.as_str(),
        )
    }

    /// Takes the poll one step on: `reply` is what the caller found when it
    /// did what the step before asked for.
    pub fn advance(self, client: &SD3Client, registry: &mut Registry, reply: Reply) -> (next: (
        Resolver,
        Action,
    ))
        ensures
            (next.0@, next.1@, final(registry)@) == step(
                self@,
                client.server(),
                reply@,
                old(registry)@,
            ),
            next.0@.well_formed(),
    {
        proof {
            use_type_invariant(&self);
        }
        let mut poll = self;
        match (poll.stage, reply) {
            (Stage::Probing, Reply::Artifact(true)) => {
                let answer = Ok((poll.state, poll.file_name.clone()));
                poll.finish(answer)
            },
            (Stage::Probing, Reply::Artifact(false)) => {
                let url: String = client.history_url(poll.prompt_id.as_str());
                poll.stage = Stage::AwaitingHistory;
                (poll, Action::FetchHistory(url))
            },
            (Stage::AwaitingHistory, Reply::History(Some(history))) => {
                match read_history(&history, poll.prompt_id.as_str()) {
                    Err(e) => poll.finish(Err(e)),
                    Ok(None) => {
                        let answer = Ok((poll.state, String::new()));
                        poll.finish(answer)
                    },
                    Ok(Some(images)) => {
                        poll.images = images;
                        if poll.images.len() == 0 {
                            let _ = update_task_status(
                                registry,
                                poll.prompt_id.as_str(),
                                TaskStatus::ExecutionSuccess,
                            );
                            let answer = Ok((poll.state, poll.file_name.clone()));
                            poll.finish(answer)
                        } else {
                            let url: String = poll.image_url(client, 0);
                            poll.next = 0;
                            poll.stage = Stage::FetchingImages;
                            (poll, Action::FetchImage(url))
                        }
                    },
                }
            },
            (Stage::AwaitingHistory, Reply::History(None)) => poll.finish(
                Err(FetchError::Transport),
            ),
            (Stage::FetchingImages, Reply::Image(Some(mut bytes))) => {
                assert(poll.next < poll.images.len());
                let mut all: Vec<u8> = poll.bytes;
                all.append(&mut bytes);
                poll.bytes = all;
                if poll.next + 1 < poll.images.len() {
                    let url: String = poll.image_url(client, poll.next + 1);
                    poll.next = poll.next + 1;
                    (poll, Action::FetchImage(url))
                } else {
                    let action = Action::SaveArtifact(poll.file_path.clone(), poll.bytes.clone());
                    poll.stage = Stage::Saving;
                    (poll, action)
                }
            },
            (Stage::FetchingImages, Reply::Image(None)) => poll.finish(Err(FetchError::Transport)),
            (Stage::Saving, Reply::Saved(true)) => {
                let _ = update_task_status(
                    registry,
                    poll.prompt_id.as_str(),
                    TaskStatus::ExecutionSuccess,
                );
                let answer = Ok((poll.state, poll.file_name.clone()));
                poll.finish(answer)
            },
            (Stage::Saving, Reply::Saved(false)) => poll.finish(Err(FetchError::Storage)),
            _ => poll.finish(Err(FetchError::OutOfTurn)),
        }
    }
}

/// A poll for a job that is not on record fails at once, and asks for
/// nothing.
pub proof fn lemma_unknown_job_fails(entries: Entries, root: Seq<char>, prompt_id: Seq<char>)
    requires
        !entries.contains_key(prompt_id),
    ensures
        begun(entries, root, prompt_id).1 == ActionView::Finish(Err(FetchError::UnknownTask)),
        begun(entries, root, prompt_id).0.stage == Stage::Finished,
{
}

/// Once the artifact is on local storage, a poll answers with its file name
/// after the one look at local storage: it asks the compute service for
/// nothing and leaves the registry as it was. So a second poll gives the same
/// file name as the first.
pub proof fn lemma_artifact_on_storage_answers_at_once(
    entries: Entries,
    root: Seq<char>,
    server: Seq<char>,
    prompt_id: Seq<char>,
)
    requires
        entries.contains_key(prompt_id),
    ensures
        ({
            let (poll, first) = begun(entries, root, prompt_id);
            let (last, answer, after) = step(poll, server, ReplyView::Artifact(true), entries);
            let (poll2, first2) = begun(after, root, prompt_id);
            let (last2, answer2, after2) = step(poll2, server, ReplyView::Artifact(true), after);
            &&& first == ActionView::ProbeArtifact(artifact_path(root, prompt_id))
            &&& answer == ActionView::Finish(Ok((entries[prompt_id], artifact_name(prompt_id))))
            &&& last.stage == Stage::Finished
            &&& after == entries
            &&& first2 == first
            &&& answer2 == answer
            &&& after2 == entries
        }),
{
}

/// A step writes to the registry only when it ends the poll with success,
/// and then it records the job as successful and nothing else. A step that
/// ends the poll with an error, or does not end it, leaves the registry as it
/// was. No step takes a job off the record.
pub proof fn lemma_registry_moves_only_on_success(
    poll: ResolverView,
    server: Seq<char>,
    reply: ReplyView,
    entries: Entries,
)
    ensures
        ({
            let (next, action, after) = step(poll, server, reply, entries);
            &&& !(action matches ActionView::Finish(Ok(_))) ==> after == entries
            &&& after == entries || after == entries.insert(
                poll.prompt_id,
                TaskStatus::ExecutionSuccess,
            )
            &&& forall|task_id: Seq<char>|
                entries.contains_key(task_id) ==> after.contains_key(task_id)
        }),
{
}

/// Where the artifact cannot be written, the poll fails and the job is not
/// recorded as successful.
pub proof fn lemma_failed_write_keeps_registry(
    poll: ResolverView,
    server: Seq<char>,
    entries: Entries,
)
    requires
        poll.stage == Stage::Saving,
    ensures
        step(poll, server, ReplyView::Saved(false), entries) == (
            poll.finished(),
            ActionView::Finish(Err(FetchError::Storage)),
            entries,
        ),
{
}

/// A step keeps a poll well formed, and a poll that has its answer keeps it.
pub proof fn lemma_step_well_formed(
    poll: ResolverView,
    server: Seq<char>,
    reply: ReplyView,
    entries: Entries,
)
    requires
        poll.well_formed(),
    ensures
        step(poll, server, reply, entries).0.well_formed(),
        step(poll, server, reply, entries).1 is Finish <==> step(
            poll,
            server,
            reply,
            entries,
        ).0.stage == Stage::Finished,
{
}

/// What a poll comes to when the caller finds `replies`, one for each thing
/// it is asked to do: where the poll stands then, the last thing asked, which
/// is the answer once the poll has one, and the registry then. Findings that
/// come after the answer are not looked at.
pub open spec fn run(
    poll: ResolverView,
    asked: ActionView,
    server: Seq<char>,
    entries: Entries,
    replies: Seq<ReplyView>,
) -> (ResolverView, ActionView, Entries)
    decreases replies.len(),
{
    if replies.len() == 0 || asked is Finish {
        (poll, asked, entries)
    } else {
        let (next, action, after) = step(poll, server, replies[0], entries);
        run(next, action, server, after, replies.skip(1))
    }
}

/// The findings that every image was fetched: one for each of `chunks`, the
/// bytes of the images in their order.
pub open spec fn image_replies(chunks: Seq<Seq<u8>>) -> Seq<ReplyView> {
    Seq::new(chunks.len(), |i: int| ReplyView::Image(Some(chunks[i])))
}

/// A poll advances the registry only when it succeeds: whatever the caller
/// finds, a poll that ends with an error, or has not ended, leaves the
/// registry as it was, and a poll that ends with success has at most recorded
/// its job as successful.
pub proof fn lemma_failed_poll_keeps_registry(
    poll: ResolverView,
    asked: ActionView,
    server: Seq<char>,
    entries: Entries,
    replies: Seq<ReplyView>,
)
    ensures
        ({
            let (_, last, after) = run(poll, asked, server, entries, replies);
            &&& !(last matches ActionView::Finish(Ok(_))) ==> after == entries
            &&& after == entries || after == entries.insert(
                poll.prompt_id,
                TaskStatus::ExecutionSuccess,
            )
        }),
    decreases replies.len(),
{
    if replies.len() > 0 && !(asked is Finish) {
        let (next, action, after) = step(poll, server, replies[0], entries);
        lemma_registry_moves_only_on_success(poll, server, replies[0], entries);
        lemma_failed_poll_keeps_registry(next, action, server, after, replies.skip(1));
        if after != entries {
            assert(action is Finish);
            assert(run(next, action, server, after, replies.skip(1)) == (next, action, after));
        } else {
            assert(next.prompt_id == poll.prompt_id);
        }
    }
}

/// A poll may be run in two parts: what it comes to over findings that are
/// put one after the other is what the second part makes of what the first
/// part came to.
pub proof fn lemma_run_in_parts(
    poll: ResolverView,
    asked: ActionView,
    server: Seq<char>,
    entries: Entries,
    first: Seq<ReplyView>,
    second: Seq<ReplyView>,
)
    ensures
        ({
            let (middle, action, after) = run(poll, asked, server, entries, first);
            run(poll, asked, server, entries, first + second) == run(
                middle,
                action,
                server,
                after,
                second,
            )
        }),
    decreases first.len(),
{
    if first.len() == 0 {
        assert(first + second =~= second);
    } else if asked is Finish {
    } else {
        let (next, action, after) = step(poll, server, first[0], entries);
        assert((first + second)[0] == first[0]);
        assert((first + second).skip(1) =~= first.skip(1) + second);
        lemma_run_in_parts(next, action, server, after, first.skip(1), second);
    }
}

/// While the images are fetched, each is asked for in its turn, the registry
/// stays as it was, and when the last one has come the poll asks to save the
/// bytes of all of them, one after the other in the order of the images.
pub proof fn lemma_images_are_fetched_in_turn(
    poll: ResolverView,
    server: Seq<char>,
    entries: Entries,
    chunks: Seq<Seq<u8>>,
)
    requires
        poll.stage == Stage::FetchingImages,
        poll.well_formed(),
        chunks.len() == poll.images.len() - poll.next,
    ensures
        ({
            let asked = ActionView::FetchImage(image_url(server, poll.images[poll.next]));
            let (saving, action, after) = run(poll, asked, server, entries, image_replies(chunks));
            &&& saving == ResolverView {
                stage: Stage::Saving,
                next: poll.images.len() - 1,
                bytes: poll.bytes + chunks.flatten(),
                ..poll
            }
            &&& action == ActionView::SaveArtifact(poll.file_path, poll.bytes + chunks.flatten())
            &&& after == entries
        }),
    decreases chunks.len(),
{
    let replies = image_replies(chunks);
    let asked = ActionView::FetchImage(image_url(server, poll.images[poll.next]));
    let (next, action, after) = step(poll, server, replies[0], entries);
    let rest = chunks.skip(1);
    assert(replies.skip(1) =~= image_replies(rest));
    assert(chunks.drop_first() =~= rest);
    assert(chunks.flatten() == chunks[0] + rest.flatten());
    if poll.next + 1 < poll.images.len() {
        lemma_images_are_fetched_in_turn(next, server, entries, rest);
        assert(poll.bytes + chunks[0] + rest.flatten() =~= poll.bytes + chunks.flatten());
    } else {
        assert(rest.len() == 0);
        assert(rest.flatten() =~= Seq::<u8>::empty());
        assert(poll.bytes + chunks[0] =~= poll.bytes + chunks.flatten());
        assert(run(next, action, server, after, replies.skip(1)) == (next, action, after));
    }
}

/// A poll for a job on record whose artifact is not on local storage yet,
/// and whose history names images: it asks for the history, fetches every
/// image, and asks to save the bytes of all of them in their order at the
/// path of the artifact, with the registry still as it was. When they are
/// saved it answers with the file name and records the job as successful;
/// when they cannot be saved it fails and the registry stays as it was.
pub proof fn lemma_poll_fetches_and_saves(
    entries: Entries,
    root: Seq<char>,
    server: Seq<char>,
    prompt_id: Seq<char>,
    history: Json,
    chunks: Seq<Seq<u8>>,
)
    requires
        entries.contains_key(prompt_id),
        history_images(history, prompt_id) matches Ok(Some(images)) && images.len()
            == chunks.len(),
        chunks.len() > 0,
    ensures
        ({
            let (poll, first) = begun(entries, root, prompt_id);
            let fetching = seq![ReplyView::Artifact(false), ReplyView::History(Some(history))]
                + image_replies(chunks);
            let fetched = run(poll, first, server, entries, fetching);
            let saved = run(poll, first, server, entries, fetching.push(ReplyView::Saved(true)));
            let failed = run(poll, first, server, entries, fetching.push(ReplyView::Saved(false)));
            &&& fetched.1 == ActionView::SaveArtifact(
                artifact_path(root, prompt_id),
                chunks.flatten(),
            )
            &&& fetched.2 == entries
            &&& saved.1 == ActionView::Finish(Ok((entries[prompt_id], artifact_name(prompt_id))))
            &&& saved.2 == entries.insert(prompt_id, TaskStatus::ExecutionSuccess)
            &&& failed.1 == ActionView::Finish(Err(FetchError::Storage))
            &&& failed.2 == entries
        }),
{
    let (poll, first) = begun(entries, root, prompt_id);
    let opening = seq![ReplyView::Artifact(false), ReplyView::History(Some(history))];
    let fetching = opening + image_replies(chunks);
    let images = history_images(history, prompt_id)->Ok_0->Some_0;
    let (asking, ask, e1) = step(poll, server, opening[0], entries);
    let (fetch, get, e2) = step(asking, server, opening[1], e1);
    assert(run(poll, first, server, entries, opening) == (fetch, get, e2)) by {
        reveal_with_fuel(run, 3);
        assert(opening.skip(1)[0] == opening[1]);
        assert(opening.skip(1).skip(1).len() == 0);
    }
    lemma_run_in_parts(poll, first, server, entries, opening, image_replies(chunks));
    lemma_images_are_fetched_in_turn(fetch, server, entries, chunks);
    assert(Seq::<u8>::empty() + chunks.flatten() =~= chunks.flatten());
    let (saving, save, e3) = run(poll, first, server, entries, fetching);
    let closing_ok = seq![ReplyView::Saved(true)];
    let closing_failed = seq![ReplyView::Saved(false)];
    assert(fetching.push(ReplyView::Saved(true)) =~= fetching + closing_ok);
    assert(fetching.push(ReplyView::Saved(false)) =~= fetching + closing_failed);
    lemma_run_in_parts(poll, first, server, entries, fetching, closing_ok);
    lemma_run_in_parts(poll, first, server, entries, fetching, closing_failed);
    assert(run(saving, save, server, e3, closing_ok) == step(
        saving,
        server,
        ReplyView::Saved(true),
        e3,
    )) by {
        reveal_with_fuel(run, 2);
        assert(closing_ok.skip(1).len() == 0);
    }
    assert(run(saving, save, server, e3, closing_failed) == step(
        saving,
        server,
        ReplyView::Saved(false),
        e3,
    )) by {
        reveal_with_fuel(run, 2);
        assert(closing_failed.skip(1).len() == 0);
    }
}

} // verus!
