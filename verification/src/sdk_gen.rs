//! Pure planning half of the SDK-generation tooling: the code-generation
//! settings, the generated-SDK record, the exact gradle invocation argument
//! list, and the retry decision for the assemble step.  Running gradle,
//! copying files and driving git stay outside the library.

use crate::text::{contains_seq, decimal_rep, decimal_string, str_contains};
use vstd::prelude::*;
use vstd::string::StringExecFns;

verus! {

/// Settings that shape one code-generation run.
pub struct CodeGenSettings {
    pub smithy_parallelism: usize,
    pub max_gradle_heap_megabytes: usize,
    pub max_gradle_metaspace_megabytes: usize,
    pub aws_models_path: Option<String>,
    pub model_metadata_path: Option<String>,
}

impl Default for CodeGenSettings {
    /// One-at-a-time code generation with half-gigabyte gradle heaps and no
    /// model overrides.
    fn default() -> (r: Self)
        ensures
            r.smithy_parallelism == 1,
            r.max_gradle_heap_megabytes == 512,
            r.max_gradle_metaspace_megabytes == 512,
            r.aws_models_path is None,
            r.model_metadata_path is None,
    {
        CodeGenSettings {
            smithy_parallelism: 1,
            max_gradle_heap_megabytes: 512,
            max_gradle_metaspace_megabytes: 512,
            aws_models_path: None,
            model_metadata_path: None,
        }
    }
}

/// A generated SDK: where its artifacts lie.  Whoever produces the record
/// keeps the backing directory alive for as long as the record is shared.
pub struct GeneratedSdk {
    path: String,
}

impl View for GeneratedSdk {
    type V = Seq<char>;

    closed spec fn view(&self) -> Seq<char> {
        self.path@
    }
}

impl GeneratedSdk {
    /// A record pointing at the given artifact path.
    pub fn new(path: String) -> (r: GeneratedSdk)
        ensures
            r@ == path@,
    {
        GeneratedSdk { path }
    }

    /// The path to the generated SDK artifacts.
    pub fn path(&self) -> (r: &String)
        ensures
            r@ == self@,
    {
        &self.path
    }
}

/// The gradle daemon JVM options: memory bounds from the settings, serial
/// GC, and non-incremental in-process Kotlin compilation.
pub open spec fn jvm_args_text(heap_megabytes: nat, metaspace_megabytes: nat) -> Seq<char> {
    "-Dorg.gradle.jvmargs=-Xmx"@ + decimal_rep(heap_megabytes) + "m -XX:MaxMetaspaceSize="@
        + decimal_rep(metaspace_megabytes)
        + "m -XX:+UseSerialGC -verbose:gc -Dkotlin.incremental=false -Dkotlin.caching.enabled=false -Dkotlin.compiler.execution.strategy=in-process"@
}

/// The full argument list of one `aws:sdk:assemble` gradle invocation:
/// fixed daemon and verbosity flags, the JVM options, the parallelism
/// property, the optional model-path properties, and the run-specific
/// properties, in this order.
pub open spec fn gradle_assemble_args(
    settings: CodeGenSettings,
    previous_versions_manifest: Seq<char>,
    examples_revision: Seq<char>,
    attempt: nat,
) -> Seq<Seq<char>> {
    seq![
        "--no-daemon"@,
        "--no-parallel"@,
        "--max-workers=1"@,
        "--info"@,
        jvm_args_text(
            settings.max_gradle_heap_megabytes as nat,
            settings.max_gradle_metaspace_megabytes as nat,
        ),
        "-Djava.util.concurrent.ForkJoinPool.common.parallelism="@ + decimal_rep(
            settings.smithy_parallelism as nat,
        ),
    ] + (match settings.aws_models_path {
        Some(p) => seq!["-Paws.sdk.models.path="@ + p@],
        None => Seq::empty(),
    }) + (match settings.model_metadata_path {
        Some(p) => seq!["-Paws.sdk.model.metadata="@ + p@],
        None => Seq::empty(),
    }) + seq![
        "-Paws.sdk.previous.release.versions.manifest="@ + previous_versions_manifest,
        "-Paws.sdk.examples.revision="@ + examples_revision,
        "-Paws.sdk.sync.attempt="@ + decimal_rep(attempt),
        "aws:sdk:assemble"@,
    ]
}

/// Computes the gradle argument list for one assemble attempt, exactly as
/// `gradle_assemble_args` lays it out.
pub fn gradle_invocation_args(
    settings: &CodeGenSettings,
    previous_versions_manifest: &str,
    examples_revision: &str,
    attempt: u32,
) -> (r: Vec<String>)
    ensures
        r@.map_values(|s: String| s@) == gradle_assemble_args(
            *settings,
            previous_versions_manifest@,
            examples_revision@,
            attempt as nat,
        ),
{
    let mut r: Vec<String> = Vec::new();
    r.push("--no-daemon".to_owned());
    r.push("--no-parallel".to_owned());
    r.push("--max-workers=1".to_owned());
    r.push("--info".to_owned());
    let jvm = "-Dorg.gradle.jvmargs=-Xmx".to_owned().concat(
        decimal_string(settings.max_gradle_heap_megabytes as u64).as_str(),
    ).concat("m -XX:MaxMetaspaceSize=").concat(
        decimal_string(settings.max_gradle_metaspace_megabytes as u64).as_str(),
    ).concat(
        "m -XX:+UseSerialGC -verbose:gc -Dkotlin.incremental=false -Dkotlin.caching.enabled=false -Dkotlin.compiler.execution.strategy=in-process",
    );
    proof {
        assert(jvm@ =~= jvm_args_text(
            settings.max_gradle_heap_megabytes as nat,
            settings.max_gradle_metaspace_megabytes as nat,
        ));
    }
    r.push(jvm);
    r.push(
        "-Djava.util.concurrent.ForkJoinPool.common.parallelism=".to_owned().concat(
            decimal_string(settings.smithy_parallelism as u64).as_str(),
        ),
    );
    match &settings.aws_models_path {
        Some(p) => {
            r.push("-Paws.sdk.models.path=".to_owned().concat(p.as_str()));
        },
        None => {},
    }
    match &settings.model_metadata_path {
        Some(p) => {
            r.push("-Paws.sdk.model.metadata=".to_owned().concat(p.as_str()));
        },
        None => {},
    }
    r.push(
        "-Paws.sdk.previous.release.versions.manifest=".to_owned().concat(
            previous_versions_manifest,
        ),
    );
    r.push("-Paws.sdk.examples.revision=".to_owned().concat(examples_revision));
    r.push("-Paws.sdk.sync.attempt=".to_owned().concat(decimal_string(attempt as u64).as_str()));
    r.push("aws:sdk:assemble".to_owned());
    proof {
        assert(r@.map_values(|s: String| s@) =~~= gradle_assemble_args(
            *settings,
            previous_versions_manifest@,
            examples_revision@,
            attempt as nat,
        ));
    }
    r
}

/// How many times the assemble step is attempted before its failure is
/// final.
pub const MAX_ASSEMBLE_ATTEMPTS: u32 = 3;

/// The gradle failure text that marks a retryable daemon startup failure.
pub open spec fn daemon_timeout_text() -> Seq<char> {
    "Timeout waiting to connect to the Gradle daemon"@
}

/// Decides whether a failed assemble attempt is run again: only when
/// attempts remain and the failure text reports a gradle daemon connection
/// timeout.
pub fn should_retry_assemble(attempt: u32, max_attempts: u32, error_message: &str) -> (r: bool)
    ensures
        r == (attempt < max_attempts && contains_seq(error_message@, daemon_timeout_text())),
{
    attempt < max_attempts && str_contains(
        error_message,
        "Timeout waiting to connect to the Gradle daemon",
    )
}

} // verus!
