//! Running a batch: what is checked and said before it, how it runs, and how it ends.

use crate::batch::IN_MEMORY_COPY_THRESHOLD;
use crate::client::S3Client;
use crate::display;
use crate::display::{warn_prefix_no_trailing_slash, MIB};
use crate::task::CsvCommand;
use crate::text;
use crate::text::append_decimal;
use crate::tool_error;
use crate::tool_error::{ToolError, ToolErrorView};
use vstd::prelude::*;

verus! {

/// The options of a batch.
#[derive(Clone, Debug)]
pub struct CsvArgs {
    /// The manifest.
    pub source_path: String,
    /// The column that holds the keys, counted from 0.
    pub column_idx: usize,
    /// Whether the first record of the manifest holds the names of the columns.
    pub has_header: bool,
    pub workers: usize,
    /// Whether what exists at the destination and seems unchanged is left alone.
    pub skip_existing_with_inference: bool,
    pub command: CsvCommand,
}

/// How a batch runs.
#[derive(Debug)]
pub struct BatchPlan {
    /// What is said before it begins.
    pub warnings: Vec<String>,
    /// The directory that has to be there.
    pub local_dir: Option<String>,
    /// How many keys are worked on at the same time.
    pub concurrency: usize,
    /// Whether its progress can be shown.
    pub has_progress: bool,
}

/// The model of [`BatchPlan`].
pub struct BatchPlanView {
    pub warnings: Seq<Seq<char>>,
    pub local_dir: Option<Seq<char>>,
    pub concurrency: usize,
    pub has_progress: bool,
}

impl View for BatchPlan {
    type V = BatchPlanView;

    open spec fn view(&self) -> BatchPlanView {
        BatchPlanView {
            warnings: self.warnings.deep_view(),
            local_dir: self.local_dir.deep_view(),
            concurrency: self.concurrency,
            has_progress: self.has_progress,
        }
    }
}

/// `a * b`, or the largest number if that is less.
pub open spec fn saturating_product(a: u64, b: u64) -> u64 {
    if a * b <= u64::MAX {
        (a * b) as u64
    } else {
        u64::MAX
    }
}

/// `a * b`, or the largest number if that is less.
fn saturating_mul(a: u64, b: u64) -> (product: u64)
    ensures
        product == saturating_product(a, b),
{
    match a.checked_mul(b) {
        Some(product) => product,
        None => u64::MAX,
    }
}

/// How much memory, in MiB, copies between clients that go through memory at once can take.
pub open spec fn in_memory_mib(batch_workers: u64) -> u64 {
    saturating_product(IN_MEMORY_COPY_THRESHOLD, batch_workers) / MIB
}

/// How much memory, in MiB, copies between clients in parts can take.
pub open spec fn multipart_mib(part_size: u64, batch_workers: u64, multipart_workers: u64) -> u64 {
    saturating_product(saturating_product(part_size, batch_workers), multipart_workers) / MIB
}

/// What is said of how a batch copies between clients.
pub open spec fn concurrency_warning(batch_workers: usize, dst_client: S3Client) -> Seq<char> {
    "CSV cross-client copy concurrency: batch_workers="@ + text::decimal(batch_workers as nat)
        + ", multipart_workers="@ + text::decimal(dst_client.multipart_workers as nat)
        + ", multipart_part_size="@ + text::decimal((dst_client.multipart_part_size / MIB) as nat)
        + " MiB. Objects below "@ + text::decimal((IN_MEMORY_COPY_THRESHOLD / MIB) as nat)
        + " MiB are copied fully in memory, allowing up to approximately "@ + text::decimal(
        in_memory_mib(batch_workers as u64) as nat,
    ) + " MiB of payload buffering; multipart copies can buffer approximately "@ + text::decimal(
        multipart_mib(
            dst_client.multipart_part_size,
            batch_workers as u64,
            dst_client.multipart_workers as u64,
        ) as nat,
    ) + " MiB, plus SDK overhead."@
}

/// What is said where the multipart settings of the two clients of a batch differ.
pub open spec fn differing_settings(src_client: S3Client, dst_client: S3Client) -> Option<
    Seq<char>,
> {
    if src_client.multipart_part_size == dst_client.multipart_part_size
        && src_client.multipart_workers == dst_client.multipart_workers {
        None
    } else {
        Some(
            "Source and destination multipart settings differ: source part_size="@ + text::decimal(
                src_client.multipart_part_size as nat,
            ) + " bytes workers="@ + text::decimal(src_client.multipart_workers as nat)
                + ", destination part_size="@ + text::decimal(
                dst_client.multipart_part_size as nat,
            ) + " bytes workers="@ + text::decimal(dst_client.multipart_workers as nat)
                + ". Using destination settings."@,
        )
    }
}

/// A list of warnings, with one more if there is one.
pub open spec fn with_warning(warnings: Seq<Seq<char>>, warning: Option<Seq<char>>) -> Seq<
    Seq<char>,
> {
    match warning {
        Some(warning) => warnings.push(warning),
        None => warnings,
    }
}

/// What is said of the clients of a batch.
pub open spec fn client_warnings(
    client: S3Client,
    dst_client: Option<S3Client>,
    args: CsvArgs,
) -> Seq<Seq<char>> {
    match (args.command, dst_client) {
        (CsvCommand::CopyCrossClients(_), Some(dst_client)) => with_warning(
            with_warning(Seq::empty(), differing_settings(client, dst_client)),
            Some(concurrency_warning(args.workers, dst_client)),
        ),
        _ => Seq::empty(),
    }
}

/// Warnings, followed by what is said of the prefixes of a batch.
pub open spec fn with_prefix_warnings(warnings: Seq<Seq<char>>, command: CsvCommand) -> Seq<
    Seq<char>,
> {
    match command {
        CsvCommand::Head { prefix, .. }
        | CsvCommand::Download { prefix, .. }
        | CsvCommand::Upload { prefix, .. }
        | CsvCommand::Delete { prefix, .. }
        | CsvCommand::Restore { prefix, .. } => with_warning(
            warnings,
            display::prefix_warning(prefix@, "csv"@),
        ),
        CsvCommand::Copy(copy) | CsvCommand::CopyCrossClients(copy) => with_warning(
            with_warning(
                warnings,
                display::prefix_warning(copy.src_prefix@, "csv copy (source)"@),
            ),
            display::prefix_warning(copy.dst_prefix@, "csv copy (destination)"@),
        ),
    }
}

/// How a batch runs. Objects are shown one after the other, without progress between them; all
/// other work is shared among the workers.
pub open spec fn planned_batch(
    client: S3Client,
    dst_client: Option<S3Client>,
    args: CsvArgs,
) -> Result<BatchPlanView, ToolErrorView> {
    if args.workers == 0 {
        Err(ToolErrorView::NoWorkers)
    } else if args.command is CopyCrossClients && dst_client is None {
        Err(ToolErrorView::NoDestination)
    } else {
        Ok(
            BatchPlanView {
                warnings: with_prefix_warnings(
                    client_warnings(client, dst_client, args),
                    args.command,
                ),
                local_dir: match args.command {
                    CsvCommand::Download { local_dir, .. } => Some(local_dir@),
                    _ => None,
                },
                concurrency: if args.command is Head {
                    1
                } else {
                    args.workers
                },
                has_progress: !(args.command is Head),
            },
        )
    }
}

/// The result of planning a batch, as the contracts see it.
pub open spec fn plan_result(r: Result<BatchPlan, ToolError>) -> Result<
    BatchPlanView,
    ToolErrorView,
> {
    match r {
        Ok(plan) => Ok(plan@),
        Err(e) => Err(e@),
    }
}

/// Adds a warning, if there is one.
fn push_warning(warnings: &mut Vec<String>, warning: Option<String>)
    ensures
        final(warnings).deep_view() == with_warning(
            old(warnings).deep_view(),
            warning.deep_view(),
        ),
{
    let ghost before = warnings.deep_view();
    match warning {
        Some(warning) => {
            warnings.push(warning);
            assert(warnings.deep_view() =~= before.push(warning@));
        },
        None => {},
    }
}

/// What is said of how a batch copies between clients.
fn warn_concurrency(batch_workers: usize, dst_client: &S3Client) -> (warning: String)
    ensures
        warning@ == concurrency_warning(batch_workers, *dst_client),
{
    let workers: u64 = batch_workers as u64;
    let part_size: u64 = dst_client.multipart_part_size;
    let multipart_workers: u64 = dst_client.multipart_workers as u64;
    let in_memory: u64 = saturating_mul(IN_MEMORY_COPY_THRESHOLD, workers) / MIB;
    let in_parts: u64 = saturating_mul(saturating_mul(part_size, workers), multipart_workers) / MIB;
    let mut warning = "CSV cross-client copy concurrency: batch_workers=".to_owned();
    append_decimal(&mut warning, workers);
    warning.append(", multipart_workers=");
    append_decimal(&mut warning, multipart_workers);
    warning.append(", multipart_part_size=");
    append_decimal(&mut warning, part_size / MIB);
    warning.append(" MiB. Objects below ");
    append_decimal(&mut warning, IN_MEMORY_COPY_THRESHOLD / MIB);
    warning.append(" MiB are copied fully in memory, allowing up to approximately ");
    append_decimal(&mut warning, in_memory);
    warning.append(" MiB of payload buffering; multipart copies can buffer approximately ");
    append_decimal(&mut warning, in_parts);
    warning.append(" MiB, plus SDK overhead.");
    warning
}

/// What is said where the multipart settings of the two clients of a batch differ.
fn warn_settings(src_client: &S3Client, dst_client: &S3Client) -> (warning: Option<String>)
    ensures
        warning.deep_view() == differing_settings(*src_client, *dst_client),
{
    if src_client.multipart_part_size == dst_client.multipart_part_size
        && src_client.multipart_workers == dst_client.multipart_workers {
        return None;
    }
    let mut warning =
        "Source and destination multipart settings differ: source part_size=".to_owned();
    append_decimal(&mut warning, src_client.multipart_part_size);
    warning.append(" bytes workers=");
    append_decimal(&mut warning, src_client.multipart_workers as u64);
    warning.append(", destination part_size=");
    append_decimal(&mut warning, dst_client.multipart_part_size);
    warning.append(" bytes workers=");
    append_decimal(&mut warning, dst_client.multipart_workers as u64);
    warning.append(". Using destination settings.");
    Some(warning)
}

/// Adds what is said of the prefixes of a batch.
fn push_prefix_warnings(warnings: &mut Vec<String>, command: &CsvCommand)
    ensures
        final(warnings).deep_view() == with_prefix_warnings(old(warnings).deep_view(), *command),
{
    match command {
        CsvCommand::Head { prefix, .. }
        | CsvCommand::Download { prefix, .. }
        | CsvCommand::Upload { prefix, .. }
        | CsvCommand::Delete { prefix, .. }
        | CsvCommand::Restore { prefix, .. } => {
            push_warning(warnings, warn_prefix_no_trailing_slash(prefix.as_str(), "csv"));
        },
        CsvCommand::Copy(copy) | CsvCommand::CopyCrossClients(copy) => {
            push_warning(
                warnings,
                warn_prefix_no_trailing_slash(copy.src_prefix.as_str(), "csv copy (source)"),
            );
            push_warning(
                warnings,
                warn_prefix_no_trailing_slash(copy.dst_prefix.as_str(), "csv copy (destination)"),
            );
        },
    }
}

/// How a batch runs. It is an error if it has no workers, or if it copies between clients and has
/// no destination.
pub fn run_csv(client: &S3Client, dst_client: Option<&S3Client>, args: &CsvArgs) -> (plan: Result<
    BatchPlan,
    ToolError,
>)
    ensures
        plan_result(plan) == planned_batch(
            *client,
            match dst_client {
                Some(dst_client) => Some(*dst_client),
                None => None,
            },
            *args,
        ),
{
    if args.workers == 0 {
        return Err(ToolError::NoWorkers);
    }
    let mut warnings: Vec<String> = Vec::new();
    assert(warnings.deep_view() =~= Seq::<Seq<char>>::empty());
    match &args.command {
        CsvCommand::CopyCrossClients(_) => match dst_client {
            Some(dst_client) => {
                push_warning(&mut warnings, warn_settings(client, dst_client));
                push_warning(&mut warnings, Some(warn_concurrency(args.workers, dst_client)));
            },
            None => {
                return Err(ToolError::NoDestination);
            },
        },
        _ => {},
    }
    push_prefix_warnings(&mut warnings, &args.command);
    let local_dir: Option<String> = match &args.command {
        CsvCommand::Download { local_dir, .. } => Some(local_dir.clone()),
        _ => None,
    };
    let is_head: bool = match &args.command {
        CsvCommand::Head { .. } => true,
        _ => false,
    };
    let concurrency: usize = if is_head {
        1
    } else {
        args.workers
    };
    Ok(BatchPlan { warnings, local_dir, concurrency, has_progress: !is_head })
}

/// How many keys of a batch failed.
#[derive(Debug)]
pub struct Tally {
    pub failures: usize,
}

impl Tally {
    /// No key has failed.
    pub fn new() -> (tally: Self)
        ensures
            tally.failures == 0,
    {
        Tally { failures: 0 }
    }

    /// Takes in how the work on a key ended.
    pub fn record(&mut self, succeeded: bool)
        requires
            old(self).failures < usize::MAX,
        ensures
            final(self).failures == old(self).failures + if succeeded {
                0int
            } else {
                1int
            },
    {
        if !succeeded {
            self.failures = self.failures + 1;
        }
    }

    /// How the batch ended: it fails if any key failed.
    pub fn result(&self) -> (result: Result<(), ToolError>)
        ensures
            tool_error::tool_result(result) == (if self.failures == 0 {
                Ok::<(), ToolErrorView>(())
            } else {
                Err(ToolErrorView::Failures(self.failures))
            }),
    {
        if self.failures > 0 {
            Err(ToolError::Failures(self.failures))
        } else {
            Ok(())
        }
    }
}

/// A batch is planned unless it has no workers, or copies between clients without a destination.
/// Its workers share the work, but for objects that are shown, which come one after the other and
/// without progress. Only a download needs its local directory.
pub proof fn lemma_batch_runs_as_asked_for(
    client: S3Client,
    dst_client: Option<S3Client>,
    args: CsvArgs,
)
    ensures
        match planned_batch(client, dst_client, args) {
            Ok(plan) => {
                &&& args.workers > 0
                &&& args.command is CopyCrossClients ==> dst_client is Some
                &&& args.command is Head ==> plan.concurrency == 1 && !plan.has_progress
                &&& !(args.command is Head) ==> plan.concurrency == args.workers
                    && plan.has_progress
                &&& match (args.command, plan.local_dir) {
                    (CsvCommand::Download { local_dir, .. }, Some(directory)) => directory
                        == local_dir@,
                    (CsvCommand::Download { .. }, None) => false,
                    (_, directory) => directory is None,
                }
            },
            Err(ToolErrorView::NoWorkers) => args.workers == 0,
            Err(ToolErrorView::NoDestination) => args.workers > 0
                && args.command is CopyCrossClients && dst_client is None,
            Err(_) => false,
        },
{
}

/// The prefixes of a batch, those of both ends for a copy.
pub open spec fn prefixes(command: CsvCommand) -> Seq<Seq<char>> {
    match command {
        CsvCommand::Head { prefix, .. }
        | CsvCommand::Download { prefix, .. }
        | CsvCommand::Upload { prefix, .. }
        | CsvCommand::Delete { prefix, .. }
        | CsvCommand::Restore { prefix, .. } => seq![prefix@],
        CsvCommand::Copy(copy) | CsvCommand::CopyCrossClients(copy) => seq![
            copy.src_prefix@,
            copy.dst_prefix@,
        ],
    }
}

/// The prefix may match more than is meant: it is not empty and does not end with a slash.
pub open spec fn is_doubtful(prefix: Seq<char>) -> bool {
    prefix.len() > 0 && prefix[prefix.len() - 1] != '/'
}

/// The number of prefixes that may match more than is meant.
pub open spec fn doubtful_count(prefixes: Seq<Seq<char>>) -> nat
    decreases prefixes.len(),
{
    if prefixes.len() == 0 {
        0
    } else {
        doubtful_count(prefixes.drop_last()) + if is_doubtful(prefixes.last()) {
            1nat
        } else {
            0nat
        }
    }
}

/// A batch is warned of once for each prefix that may match more than is meant. A copy between
/// clients is also warned of once for what it takes, and once more if the settings of the two
/// clients differ.
pub proof fn lemma_batch_is_warned_of(
    client: S3Client,
    dst_client: Option<S3Client>,
    args: CsvArgs,
)
    ensures
        planned_batch(client, dst_client, args) matches Ok(plan) ==> plan.warnings.len()
            == doubtful_count(prefixes(args.command)) + (if args.command is CopyCrossClients {
            1int + if client.multipart_part_size == dst_client.unwrap().multipart_part_size
                && client.multipart_workers == dst_client.unwrap().multipart_workers {
                0int
            } else {
                1int
            }
        } else {
            0int
        }),
{
    reveal_with_fuel(doubtful_count, 3);
    let all = prefixes(args.command);
    assert(all.len() > 0);
    if all.len() == 2 {
        assert(all.drop_last() =~= seq![all[0]]);
        assert(all.drop_last().drop_last() =~= Seq::<Seq<char>>::empty());
    } else {
        assert(all.drop_last() =~= Seq::<Seq<char>>::empty());
    }
}

/// What copies between clients can take in memory is 20 MiB for each worker, or the part size for
/// each worker of each worker, as long as that can be counted.
pub proof fn lemma_memory_of_copies(part_size: u64, workers: u64, part_workers: u64)
    requires
        20 * 1024 * 1024 * workers <= u64::MAX,
        part_size * workers * part_workers <= u64::MAX,
        part_size * workers <= u64::MAX,
    ensures
        in_memory_mib(workers) == 20 * workers,
        multipart_mib(part_size, workers, part_workers) == (part_size * workers * part_workers)
            / 1048576int,
{
    let bytes = IN_MEMORY_COPY_THRESHOLD * workers;
    assert(bytes == 20971520 * workers);
    assert(saturating_product(IN_MEMORY_COPY_THRESHOLD, workers) == bytes);
    assert(bytes / 1048576 == 20 * workers);
}

/// A product that cannot be counted is taken as the largest number, and any other as it is.
pub proof fn lemma_products_do_not_wrap(a: u64, b: u64)
    ensures
        a * b <= 0xffff_ffff_ffff_ffff ==> saturating_product(a, b) == a * b,
        a * b > 0xffff_ffff_ffff_ffff ==> saturating_product(a, b) == 0xffff_ffff_ffff_ffff,
{
}

} // verus!
