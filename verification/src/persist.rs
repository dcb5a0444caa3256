//! Small JSON files in the store directory, written atomically: what to do
//! about them, and in which order.
use vstd::prelude::*;

verus! {

// Loading

/// What came of reading a file.
#[derive(Debug)]
pub enum ReadOutcome {
    Text(String),
    NotFound,
    Failed,
}

/// How loading a file goes on.
#[derive(Debug)]
pub enum LoadStep {
    /// Parse this text; where that fails, the error is about this.
    Parse { text: String, context: String },
    /// There is nothing to load: take the default.
    UseDefault,
    /// Give up; the error is about this.
    Fail { context: String },
}

/// How loading a file goes on.
#[verifier::ext_equal]
pub enum LoadView {
    Parse { text: Seq<char>, context: Seq<char> },
    UseDefault,
    Fail { context: Seq<char> },
}

impl View for LoadStep {
    type V = LoadView;

    open spec fn view(&self) -> LoadView {
        match self {
            LoadStep::Parse { text, context } => LoadView::Parse {
                text: text@,
                context: context@,
            },
            LoadStep::UseDefault => LoadView::UseDefault,
            LoadStep::Fail { context } => LoadView::Fail { context: context@ },
        }
    }
}

/// How loading the file at `path` goes on: a file that does not exist stands
/// for the default, and any other failure is an error.
pub open spec fn load_of(path: Seq<char>, outcome: ReadOutcome) -> LoadView {
    match outcome {
        ReadOutcome::Text(content) => LoadView::Parse {
            text: content@,
            context: "Parsing "@ + path,
        },
        ReadOutcome::NotFound => LoadView::UseDefault,
        ReadOutcome::Failed => LoadView::Fail { context: "Reading "@ + path },
    }
}

/// How loading the file at `path` goes on: a file that does not exist stands
/// for the default, and any other failure is an error.
pub fn load_step(path: &str, outcome: ReadOutcome) -> (res: LoadStep)
    ensures
        res@ == load_of(path@, outcome),
        outcome is NotFound <==> res is UseDefault,
        outcome is Failed <==> res is Fail,
        outcome is Text <==> res is Parse,
        match outcome {
            ReadOutcome::Text(content) => {
                &&& res matches LoadStep::Parse { text, context }
                &&& text@ == content@
                &&& context@ == "Parsing "@ + path@
            },
            ReadOutcome::NotFound => res is UseDefault,
            ReadOutcome::Failed => {
                &&& res matches LoadStep::Fail { context }
                &&& context@ == "Reading "@ + path@
            },
        },
{
    match outcome {
        ReadOutcome::Text(text) => {
            let mut context = "Parsing ".to_owned();
            context.push_str(path);
            LoadStep::Parse { text, context }
        },
        ReadOutcome::NotFound => LoadStep::UseDefault,
        ReadOutcome::Failed => {
            let mut context = "Reading ".to_owned();
            context.push_str(path);
            LoadStep::Fail { context }
        },
    }
}

// Saving

/// One step of saving a file.
#[derive(Debug)]
pub enum SaveStep {
    /// Create the directory and those above it.
    CreateDir(String),
    /// Write the content to this file.
    Write(String),
    /// Move the first file over the second.
    Rename(String, String),
}

/// One step of saving a file.
#[verifier::ext_equal]
pub enum SaveStepView {
    CreateDir(Seq<char>),
    Write(Seq<char>),
    Rename(Seq<char>, Seq<char>),
}

impl View for SaveStep {
    type V = SaveStepView;

    open spec fn view(&self) -> SaveStepView {
        match self {
            SaveStep::CreateDir(dir) => SaveStepView::CreateDir(dir@),
            SaveStep::Write(file) => SaveStepView::Write(file@),
            SaveStep::Rename(from, to) => SaveStepView::Rename(from@, to@),
        }
    }
}

/// The steps of a list.
pub open spec fn step_views(steps: Seq<SaveStep>) -> Seq<SaveStepView> {
    Seq::new(steps.len(), |i: int| steps[i]@)
}

/// The steps that save the file at `path`: by way of a temporary file, in the
/// same directory, that is moved over it.
pub open spec fn steps_of(path: Seq<char>, parent: Option<Seq<char>>, temporary: Seq<char>) -> Seq<
    SaveStepView,
> {
    let rest = seq![SaveStepView::Write(temporary), SaveStepView::Rename(temporary, path)];
    match parent {
        Some(dir) if dir.len() > 0 => seq![SaveStepView::CreateDir(dir)] + rest,
        _ => rest,
    }
}

/// The steps that save the file at `path` via a temporary file and rename, so
/// a crash never leaves a truncated file behind. `parent` is the directory
/// that the file is in.
pub fn save_steps(path: &str, parent: Option<&str>, temporary: &str) -> (res: Vec<SaveStep>)
    ensures
        step_views(res@) == steps_of(
            path@,
            match parent {
                Some(dir) => Some(dir@),
                None => None,
            },
            temporary@,
        ),
{
    let mut steps: Vec<SaveStep> = Vec::new();
    if let Some(dir) = parent {
        let chars = crate::text::chars_of(dir);
        if chars.len() > 0 {
            steps.push(SaveStep::CreateDir(dir.to_owned()));
        }
    }
    steps.push(SaveStep::Write(temporary.to_owned()));
    steps.push(SaveStep::Rename(temporary.to_owned(), path.to_owned()));
    assert(step_views(steps@) =~= steps_of(
        path@,
        match parent {
            Some(dir) => Some(dir@),
            None => None,
        },
        temporary@,
    ));
    steps
}

/// What the error of a failed step is about, where the step says so.
pub fn step_context(step: &SaveStep) -> (res: Option<String>)
    ensures
        match step {
            SaveStep::CreateDir(_) => res is None,
            SaveStep::Write(file) => res matches Some(context) && context@ == "Writing "@ + file@,
            SaveStep::Rename(_, to) => res matches Some(context) && context@ == "Replacing "@ + to@,
        },
{
    match step {
        SaveStep::CreateDir(_) => None,
        SaveStep::Write(file) => {
            let mut context = "Writing ".to_owned();
            context.push_str(file.as_str());
            Some(context)
        },
        SaveStep::Rename(_, to) => {
            let mut context = "Replacing ".to_owned();
            context.push_str(to.as_str());
            Some(context)
        },
    }
}

// Laws

/// The files after a step was carried out.
pub open spec fn after_step(
    files: Map<Seq<char>, Seq<char>>,
    step: SaveStepView,
    content: Seq<char>,
) -> Map<Seq<char>, Seq<char>> {
    match step {
        SaveStepView::CreateDir(_) => files,
        SaveStepView::Write(file) => files.insert(file, content),
        SaveStepView::Rename(from, to) => files.remove(from).insert(to, files[from]),
    }
}

/// The files after the first `n` steps were carried out.
pub open spec fn after_steps(
    files: Map<Seq<char>, Seq<char>>,
    steps: Seq<SaveStepView>,
    content: Seq<char>,
    n: nat,
) -> Map<Seq<char>, Seq<char>>
    decreases n,
{
    if n == 0 {
        files
    } else {
        after_step(
            after_steps(files, steps, content, (n - 1) as nat),
            steps[n - 1],
            content,
        )
    }
}

/// The files after a crash in the middle of a step. A write may have got any
/// part of the content into the file; moving a file happens or does not.
pub open spec fn after_crash(
    files: Map<Seq<char>, Seq<char>>,
    step: SaveStepView,
    part: Seq<char>,
) -> Map<Seq<char>, Seq<char>> {
    match step {
        SaveStepView::Write(file) => files.insert(file, part),
        _ => files,
    }
}

/// Whether the file at `path` is as it was, or has the whole new content.
pub open spec fn old_or_new(
    before: Map<Seq<char>, Seq<char>>,
    after: Map<Seq<char>, Seq<char>>,
    path: Seq<char>,
    content: Seq<char>,
) -> bool {
    ||| after.contains_key(path) == before.contains_key(path) && after[path] == before[path]
    ||| after.contains_key(path) && after[path] == content
}

/// However saving is interrupted, the file at `path` has its old content or
/// the whole new content; and uninterrupted, it has the new content. The
/// temporary file must not be the file itself.
pub proof fn law_saving_is_atomic(
    files: Map<Seq<char>, Seq<char>>,
    path: Seq<char>,
    parent: Option<Seq<char>>,
    temporary: Seq<char>,
    content: Seq<char>,
    n: nat,
    part: Seq<char>,
)
    requires
        temporary != path,
        n <= steps_of(path, parent, temporary).len(),
    ensures
        ({
            let steps = steps_of(path, parent, temporary);
            let reached = after_steps(files, steps, content, n);
            &&& old_or_new(files, reached, path, content)
            &&& n < steps.len() ==> old_or_new(
                files,
                after_crash(reached, steps[n as int], part),
                path,
                content,
            )
            &&& n == steps.len() ==> reached.contains_key(path) && reached[path] == content
                && !reached.contains_key(temporary)
        }),
{
    reveal_with_fuel(after_steps, 4);
}

/// Saving touches the file and its temporary file alone. The directory is
/// made first, where there is one to make.
pub proof fn law_saving_leaves_other_files(
    files: Map<Seq<char>, Seq<char>>,
    path: Seq<char>,
    parent: Option<Seq<char>>,
    temporary: Seq<char>,
    content: Seq<char>,
    n: nat,
    other: Seq<char>,
)
    requires
        n <= steps_of(path, parent, temporary).len(),
        other != path,
        other != temporary,
    ensures
        ({
            let steps = steps_of(path, parent, temporary);
            let reached = after_steps(files, steps, content, n);
            &&& reached.contains_key(other) == files.contains_key(other)
            &&& files.contains_key(other) ==> reached[other] == files[other]
            &&& parent is Some && (parent->0).len() > 0 ==> steps[0] == SaveStepView::CreateDir(
                parent->0,
            )
            &&& parent is Some && (parent->0).len() > 0 ==> steps.len() == 3
            &&& parent is None || (parent->0).len() == 0 ==> steps.len() == 2
        }),
{
    reveal_with_fuel(after_steps, 4);
}

/// The steps of saving a file are what they say.
pub proof fn law_steps_are_seen_as_they_are(
    steps: Seq<SaveStep>,
    i: int,
    a: String,
    b: String,
)
    ensures
        step_views(steps).len() == steps.len(),
        0 <= i < steps.len() ==> step_views(steps)[i] == steps[i]@,
        SaveStep::CreateDir(a)@ == SaveStepView::CreateDir(a@),
        SaveStep::Write(a)@ == SaveStepView::Write(a@),
        SaveStep::Rename(a, b)@ == SaveStepView::Rename(a@, b@),
{
}

/// A file that is there is parsed, whatever it holds; only one that does not
/// exist stands for the default, and a file that cannot be read is an error
/// about it.
pub proof fn law_only_missing_files_stand_for_the_default(path: Seq<char>, content: String)
    ensures
        load_of(path, ReadOutcome::NotFound) is UseDefault,
        load_of(path, ReadOutcome::Failed) is Fail,
        crate::text::is_suffix(load_of(path, ReadOutcome::Failed)->Fail_context, path),
        load_of(path, ReadOutcome::Text(content)) is Parse,
        load_of(path, ReadOutcome::Text(content))->text == content@,
        crate::text::is_suffix(
            load_of(path, ReadOutcome::Text(content))->Parse_context,
            path,
        ),
{
    crate::text::law_suffixes("Reading "@, path);
    crate::text::law_suffixes("Parsing "@, path);
}

} // verus!
