//! The texts that the driver writes out: the report of a pack's conflicts,
//! and the scripts that build and install the modules.

use crate::text::strings;
use vstd::prelude::*;
use vstd::string::*;

verus! {

/// What is needed to build one module: its name, the directory that holds
/// its manifest, and the path of the archive to make.
#[derive(Debug)]
pub struct BuildStep {
    pub name: String,
    pub directory: String,
    pub archive: String,
}

/// What a `BuildStep` holds, as mathematical values.
pub struct BuildStepView {
    pub name: Seq<char>,
    pub directory: Seq<char>,
    pub archive: Seq<char>,
}

impl View for BuildStep {
    type V = BuildStepView;

    open spec fn view(&self) -> BuildStepView {
        BuildStepView { name: self.name@, directory: self.directory@, archive: self.archive@ }
    }
}

/// What a list of build steps holds.
pub open spec fn steps_view(steps: Seq<BuildStep>) -> Seq<BuildStepView> {
    steps.map_values(|s: BuildStep| s@)
}

/// The file name of a module's archive: its name, a hyphen, its version,
/// and the ending `.vsix`.
pub open spec fn archive_name_text(name: Seq<char>, version: Seq<char>) -> Seq<char> {
    name + "-"@ + version + ".vsix"@
}

/// The file name of a module's archive.
pub fn archive_name(name: &str, version: &str) -> (file_name: String)
    ensures
        file_name@ == archive_name_text(name@, version@),
{
    let mut file_name = String::from_str(name);
    file_name.append("-");
    file_name.append(version);
    file_name.append(".vsix");
    file_name
}

/// The lines of the build script that build one module.
pub open spec fn build_section_text(step: BuildStepView) -> Seq<char> {
    "#========================================\n# "@ + step.name
        + "\n#========================================\necho \"Building "@ + step.name
        + "\"\ncd "@ + step.directory + " || exit\nvsce package -o "@ + step.archive + "\n\n"@
}

/// The build script: the sections of the steps, one after the other.
pub open spec fn build_script_text(steps: Seq<BuildStepView>) -> Seq<char>
    decreases steps.len(),
{
    if steps.len() == 0 {
        Seq::empty()
    } else {
        build_script_text(steps.drop_last()) + build_section_text(steps.last())
    }
}

/// The script that builds the modules, one after the other.
pub fn build_script(steps: &Vec<BuildStep>) -> (script: String)
    ensures
        script@ == build_script_text(steps_view(steps@)),
{
    let ghost all = steps_view(steps@);
    let mut script = String::new();
    let mut i: usize = 0;
    assert(all.take(0) =~= Seq::<BuildStepView>::empty());
    while i < steps.len()
        invariant
            i <= steps.len(),
            all == steps_view(steps@),
            script@ == build_script_text(all.take(i as int)),
        decreases steps.len() - i,
    {
        let ghost before = script@;
        let step = &steps[i];
        script.append("#========================================\n# ");
        script.append(step.name.as_str());
        script.append("\n#========================================\necho \"Building ");
        script.append(step.name.as_str());
        script.append("\"\ncd ");
        script.append(step.directory.as_str());
        script.append(" || exit\nvsce package -o ");
        script.append(step.archive.as_str());
        script.append("\n\n");
        proof {
            assert(all.take(i + 1).drop_last() =~= all.take(i as int));
            assert(all.take(i + 1).last() == step@);
            assert(script@ =~= before + build_section_text(step@));
        }
        i += 1;
    }
    assert(all.take(steps@.len() as int) =~= all);
    script
}

/// The install script: for each archive one line that has the editor's
/// command install it.
pub open spec fn install_script_text(command: Seq<char>, archives: Seq<Seq<char>>) -> Seq<char>
    decreases archives.len(),
{
    if archives.len() == 0 {
        Seq::empty()
    } else {
        install_script_text(command, archives.drop_last()) + command + " --install-extension "@
            + archives.last() + "\n"@
    }
}

/// The script that installs the archives with the editor's command.
pub fn install_script(command: &str, archives: &Vec<String>) -> (script: String)
    ensures
        script@ == install_script_text(command@, strings(archives@)),
{
    let ghost all = strings(archives@);
    let mut script = String::new();
    let mut i: usize = 0;
    assert(all.take(0) =~= Seq::<Seq<char>>::empty());
    while i < archives.len()
        invariant
            i <= archives.len(),
            all == strings(archives@),
            script@ == install_script_text(command@, all.take(i as int)),
        decreases archives.len() - i,
    {
        let ghost before = script@;
        script.append(command);
        script.append(" --install-extension ");
        script.append(archives[i].as_str());
        script.append("\n");
        proof {
            assert(all.take(i + 1).drop_last() =~= all.take(i as int));
            assert(all.take(i + 1).last() == archives@[i as int]@);
            assert(script@ =~= before + command@ + " --install-extension "@ + archives@[i as int]@
                + "\n"@);
        }
        i += 1;
    }
    assert(all.take(archives@.len() as int) =~= all);
    script
}

/// The lines that list the sentences of a report, one line to the sentence.
pub open spec fn report_lines_text(errors: Seq<Seq<char>>) -> Seq<char>
    decreases errors.len(),
{
    if errors.len() == 0 {
        Seq::empty()
    } else {
        report_lines_text(errors.drop_last()) + "\n\t> "@ + errors.last()
    }
}

/// The report of a pack's conflicts: a heading, then the sentences.
pub open spec fn conflict_report_text(errors: Seq<Seq<char>>) -> Seq<char> {
    ":\n> Multiple inheritance found:"@ + report_lines_text(errors)
}

/// The report of a pack's conflicts, as the driver shows it before it stops.
pub fn conflict_report(errors: &Vec<String>) -> (report: String)
    ensures
        report@ == conflict_report_text(strings(errors@)),
{
    let ghost all = strings(errors@);
    let mut report = String::from_str(":\n> Multiple inheritance found:");
    let mut i: usize = 0;
    assert(all.take(0) =~= Seq::<Seq<char>>::empty());
    assert(report@ =~= conflict_report_text(all.take(0)));
    while i < errors.len()
        invariant
            i <= errors.len(),
            all == strings(errors@),
            report@ == conflict_report_text(all.take(i as int)),
        decreases errors.len() - i,
    {
        let ghost before = report@;
        report.append("\n\t> ");
        report.append(errors[i].as_str());
        proof {
            assert(all.take(i + 1).drop_last() =~= all.take(i as int));
            assert(all.take(i + 1).last() == errors@[i as int]@);
            assert(report@ =~= conflict_report_text(all.take(i + 1)));
        }
        i += 1;
    }
    assert(all.take(errors@.len() as int) =~= all);
    report
}

} // verus!
