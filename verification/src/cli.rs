//! The commands of the deployment tool, as the steps that each one takes.
use vstd::prelude::*;

verus! {

/// A command of the tool.
#[derive(Clone, Copy, Debug, PartialEq, Eq, Structural)]
pub enum Cli {
    /// Installs the worker template in the package in the current
    /// directory, with its binary target and its dependency.
    Install,
    /// Builds the worker and puts it, with the glue code, under `dist`.
    Deploy,
}

/// One step of a command. A step that fails ends the command.
#[derive(Clone, Copy, Debug, PartialEq, Eq, Structural)]
pub enum Step {
    /// Make sure that the current directory holds a package manifest.
    CheckPackage,
    /// Create the directory `src/bin`.
    CreateBinDir,
    /// Write the worker template to `src/bin/worker.rs`.
    WriteTemplate,
    /// Add the worker target and dependency to the manifest.
    EditManifest,
    /// Build the worker for the sandbox target with release settings.
    BuildWorker,
    /// Create the directory `dist`.
    CreateDist,
    /// Copy the built worker to `dist/worker.wasm`.
    CopyWorker,
    /// Strip what the worker does not use from `dist/worker.wasm`.
    ShrinkWorker,
    /// Write the glue code to `dist/worker.js`.
    WriteGlue,
}

impl Step {
    /// The file that the step creates, if it creates one: the template,
    /// the copy of the built worker, the glue code.
    pub open spec fn created(self) -> Option<Seq<char>> {
        match self {
            Step::WriteTemplate => Some("./src/bin/worker.rs"@),
            Step::CopyWorker => Some("./dist/worker.wasm"@),
            Step::WriteGlue => Some("./dist/worker.js"@),
            _ => None,
        }
    }

    /// The path of the file that the step creates, if it creates one.
    pub fn file(&self) -> (path: Option<&'static str>)
        ensures
            match path {
                Some(p) => self.created() == Some(p@),
                None => self.created() is None,
            },
    {
        match self {
            Step::WriteTemplate => Some("./src/bin/worker.rs"),
            Step::CopyWorker => Some("./dist/worker.wasm"),
            Step::WriteGlue => Some("./dist/worker.js"),
            _ => None,
        }
    }
}

impl Cli {
    /// The steps of a command, in the order in which they are taken.
    pub open spec fn steps(self) -> Seq<Step> {
        match self {
            Cli::Install => seq![
                Step::CheckPackage,
                Step::CreateBinDir,
                Step::WriteTemplate,
                Step::EditManifest,
            ],
            Cli::Deploy => seq![
                Step::CheckPackage,
                Step::BuildWorker,
                Step::CreateDist,
                Step::CopyWorker,
                Step::ShrinkWorker,
                Step::WriteGlue,
            ],
        }
    }

    /// The steps that this command takes.
    pub fn exec(&self) -> (plan: Vec<Step>)
        ensures
            plan@ == self.steps(),
    {
        match self {
            Cli::Install => self.install(),
            Cli::Deploy => self.deploy(),
        }
    }

    /// The steps of `Install`.
    pub fn install(&self) -> (plan: Vec<Step>)
        ensures
            plan@ == Cli::Install.steps(),
    {
        let plan = vec![
            Step::CheckPackage,
            Step::CreateBinDir,
            Step::WriteTemplate,
            Step::EditManifest,
        ];
        proof {
            assert(plan@ =~= Cli::Install.steps());
        }
        plan
    }

    /// The steps of `Deploy`.
    pub fn deploy(&self) -> (plan: Vec<Step>)
        ensures
            plan@ == Cli::Deploy.steps(),
    {
        let plan = vec![
            Step::CheckPackage,
            Step::BuildWorker,
            Step::CreateDist,
            Step::CopyWorker,
            Step::ShrinkWorker,
            Step::WriteGlue,
        ];
        proof {
            assert(plan@ =~= Cli::Deploy.steps());
        }
        plan
    }
}

} // verus!
