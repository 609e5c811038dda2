//! The supervisor: it keeps the latest status and the latest metrics that each
//! neuron reported, and answers the operator's chat commands from them.
//!
//! The channels and the RPC service stay with the caller: this type decides
//! what is stored and what is answered, and the caller delivers the answer.
use vstd::prelude::*;
use crate::table::{Table, as_map, distinct_keys, has_key, key_index, upsert};

verus! {

/// Lines joined by single line breaks, with no break after the last one.
pub open spec fn join_lines(lines: Seq<Seq<char>>) -> Seq<char>
    decreases lines.len(),
{
    if lines.len() == 0 {
        Seq::empty()
    } else if lines.len() == 1 {
        lines[0]
    } else {
        join_lines(lines.drop_last()) + "\n"@ + lines.last()
    }
}

/// The texts of a sequence of strings.
pub open spec fn texts(v: Seq<String>) -> Seq<Seq<char>> {
    v.map_values(|s: String| s@)
}

/// The line that reports one neuron's status.
pub open spec fn status_line(neuron_id: Seq<char>, status: Seq<char>) -> Seq<char> {
    "Neuron "@ + neuron_id + ": "@ + status
}

/// One status line per entry, in the order of the entries.
pub open spec fn status_lines(p: Seq<(Seq<char>, String)>) -> Seq<Seq<char>> {
    p.map_values(|e: (Seq<char>, String)| status_line(e.0, e.1@))
}

/// The answer when no neuron has reported a status yet.
pub open spec fn no_status_text() -> Seq<char> {
    "No neuron status available."@
}

/// The answer to `/neuron_status` for the stored statuses `p`.
pub open spec fn status_report(p: Seq<(Seq<char>, String)>) -> Seq<char> {
    if p.len() == 0 {
        no_status_text()
    } else {
        join_lines(status_lines(p))
    }
}

/// The line that reports one metric.
pub open spec fn metric_line(name: Seq<char>, value: Seq<char>) -> Seq<char> {
    name + ": "@ + value
}

/// One metric line per entry, in the order of the entries.
pub open spec fn metric_lines(p: Seq<(Seq<char>, String)>) -> Seq<Seq<char>> {
    p.map_values(|e: (Seq<char>, String)| metric_line(e.0, e.1@))
}

/// The answer to `/neuron_metrics` given without a neuron id.
pub open spec fn metrics_usage_text() -> Seq<char> {
    "Please provide a neuron ID. Usage: /neuron_metrics <neuron_id>"@
}

/// The answer to `/neuron_metrics` with arguments `args`, for the stored
/// metrics `metrics`: only the first argument counts.
pub open spec fn metrics_report(metrics: Map<Seq<char>, Table<String>>, args: Seq<Seq<char>>) -> Seq<
    char,
> {
    if args.len() == 0 {
        metrics_usage_text()
    } else if metrics.contains_key(args[0]) {
        "Metrics for Neuron "@ + args[0] + ":\n"@ + join_lines(metric_lines(metrics[args[0]].pairs()))
    } else {
        "No metrics available for Neuron "@ + args[0] + "."@
    }
}

/// The answer to `/help`.
pub open spec fn help_text() -> Seq<char> {
    "Available commands:\n/neuron_status - Get status of all Neurons\n/neuron_metrics <neuron_id> - Get metrics of a specific Neuron\n/help - Show this help message"@
}

/// The answer to any command that is not known.
pub open spec fn unknown_command_text() -> Seq<char> {
    "Unknown command. Type /help for available commands."@
}

/// The answer to the chat command `command` with arguments `args`.
pub open spec fn telegram_response(
    status: Seq<(Seq<char>, String)>,
    metrics: Map<Seq<char>, Table<String>>,
    command: Seq<char>,
    args: Seq<Seq<char>>,
) -> Seq<char> {
    if command == "/neuron_status"@ {
        status_report(status)
    } else if command == "/neuron_metrics"@ {
        metrics_report(metrics, args)
    } else if command == "/help"@ {
        help_text()
    } else {
        unknown_command_text()
    }
}

/// Once a neuron has reported `status`, the status answer is the joined
/// status lines (not the notice for an empty record), it holds the line
/// "Neuron <id>: <status>", and the line of every other neuron stays where it
/// was and reads as before.
pub proof fn lemma_status_report_after_report(
    p: Seq<(Seq<char>, String)>,
    neuron_id: Seq<char>,
    status: String,
)
    requires
        distinct_keys(p),
    ensures
        status_report(upsert(p, neuron_id, status)) == join_lines(
            status_lines(upsert(p, neuron_id, status)),
        ),
        status_lines(upsert(p, neuron_id, status)).contains(status_line(neuron_id, status@)),
        forall|i: int|
            0 <= i < p.len() && p[i].0 != neuron_id ==> (#[trigger] status_lines(
                upsert(p, neuron_id, status),
            )[i]) == status_lines(p)[i],
{
    let q = upsert(p, neuron_id, status);
    let k = if has_key(p, neuron_id) {
        key_index(p, neuron_id)
    } else {
        p.len() as int
    };
    if has_key(p, neuron_id) {
        assert(0 <= k < p.len() && p[k].0 == neuron_id);
    }
    assert(0 <= k < q.len() && q[k] == (neuron_id, status));
    assert(status_lines(q)[k] == status_line(neuron_id, status@));
}

/// Once a neuron has reported `metrics`, asking for its metrics lists exactly
/// those metrics, whatever was stored for it before.
pub proof fn lemma_metrics_report_after_report(
    metrics: Map<Seq<char>, Table<String>>,
    neuron_id: Seq<char>,
    reported: Table<String>,
    args: Seq<Seq<char>>,
)
    requires
        args.len() > 0,
        args[0] == neuron_id,
    ensures
        metrics_report(metrics.insert(neuron_id, reported), args) == "Metrics for Neuron "@
            + neuron_id + ":\n"@ + join_lines(metric_lines(reported.pairs())),
{
}

/// The answers to `/help` and to unknown commands do not depend on what the
/// neurons reported, nor on the arguments.
pub proof fn lemma_fixed_answers(
    status1: Seq<(Seq<char>, String)>,
    metrics1: Map<Seq<char>, Table<String>>,
    args1: Seq<Seq<char>>,
    status2: Seq<(Seq<char>, String)>,
    metrics2: Map<Seq<char>, Table<String>>,
    args2: Seq<Seq<char>>,
    command: Seq<char>,
)
    requires
        command != "/neuron_status"@,
        command != "/neuron_metrics"@,
    ensures
        telegram_response(status1, metrics1, command, args1) == telegram_response(
            status2,
            metrics2,
            command,
            args2,
        ),
        telegram_response(status1, metrics1, command, args1) == (if command == "/help"@ {
            help_text()
        } else {
            unknown_command_text()
        }),
{
}

/// The texts of a sequence of strings are the strings' texts, one for one
/// and in order.
pub proof fn lemma_texts(v: Seq<String>)
    ensures
        texts(v).len() == v.len(),
        forall|i: int| 0 <= i < v.len() ==> #[trigger] texts(v)[i] == v[i]@,
{
}

/// The line break that separates the lines of an answer.
pub proof fn lemma_line_break()
    ensures
        "\n"@ == seq!['\n'],
{
    reveal_strlit("\n");
    assert("\n"@ =~= seq!['\n']);
}

/// Joining no line gives the empty text and joining one line gives that
/// line; joining two non-empty runs of lines is joining each and putting one
/// line break between them. So between every two consecutive lines there is
/// exactly one line break, and none before the first or after the last.
pub proof fn lemma_join_lines(a: Seq<Seq<char>>, b: Seq<Seq<char>>)
    ensures
        join_lines(Seq::<Seq<char>>::empty()) == Seq::<char>::empty(),
        a.len() == 1 ==> join_lines(a) == a[0],
        a.len() > 0 && b.len() > 0 ==> join_lines(a + b) == join_lines(a) + seq!['\n']
            + join_lines(b),
    decreases b.len(),
{
    lemma_line_break();
    if a.len() > 0 && b.len() > 0 {
        let ab = a + b;
        if b.len() == 1 {
            assert(ab.drop_last() =~= a);
            assert(ab.last() == b[0]);
        } else {
            let b1 = b.drop_last();
            lemma_join_lines(a, b1);
            assert(ab.drop_last() =~= a + b1);
            assert(ab.last() == b.last());
            assert(join_lines(ab) =~= join_lines(a) + seq!['\n'] + join_lines(b));
        }
    }
}

/// There is one status line per stored neuron, in the order of the record,
/// and the line of a neuron reads "Neuron <id>: <status>".
pub proof fn lemma_status_lines(p: Seq<(Seq<char>, String)>)
    ensures
        status_lines(p).len() == p.len(),
        forall|i: int|
            0 <= i < p.len() ==> #[trigger] status_lines(p)[i] == "Neuron "@ + p[i].0 + ": "@
                + p[i].1@,
{
}

/// The answer to `/neuron_status`: the notice "No neuron status available."
/// for an empty record; the one status line of a single neuron; and for more
/// neurons, the answer for all but the last, one line break, and the last
/// neuron's line.
pub proof fn lemma_status_report(p: Seq<(Seq<char>, String)>)
    ensures
        p.len() == 0 ==> status_report(p) == "No neuron status available."@,
        p.len() > 0 ==> status_report(p) == join_lines(status_lines(p)),
        p.len() == 1 ==> status_report(p) == "Neuron "@ + p[0].0 + ": "@ + p[0].1@,
        p.len() >= 2 ==> status_report(p) == status_report(p.drop_last()) + seq!['\n'] + (
        "Neuron "@ + p.last().0 + ": "@ + p.last().1@),
{
    lemma_status_lines(p);
    if p.len() == 1 {
        lemma_join_lines(status_lines(p), Seq::empty());
    }
    if p.len() >= 2 {
        let q = p.drop_last();
        let lines = status_lines(p);
        assert(lines =~= status_lines(q) + seq![lines.last()]);
        lemma_join_lines(status_lines(q), seq![lines.last()]);
        lemma_join_lines(seq![lines.last()], Seq::empty());
    }
}

/// There is one metric line per stored metric, in the order of the metrics,
/// and the line of a metric reads "<name>: <value>".
pub proof fn lemma_metric_lines(p: Seq<(Seq<char>, String)>)
    ensures
        metric_lines(p).len() == p.len(),
        forall|i: int|
            0 <= i < p.len() ==> #[trigger] metric_lines(p)[i] == p[i].0 + ": "@ + p[i].1@,
{
}

/// The answer to `/neuron_metrics`: the usage text without an argument; for
/// a first argument naming a neuron that reported metrics, the heading and its
/// metric lines; and for one that reported none, the not-available notice,
/// whatever other neurons reported.
pub proof fn lemma_metrics_report(metrics: Map<Seq<char>, Table<String>>, args: Seq<Seq<char>>)
    ensures
        args.len() == 0 ==> metrics_report(metrics, args)
            == "Please provide a neuron ID. Usage: /neuron_metrics <neuron_id>"@,
        args.len() > 0 && metrics.contains_key(args[0]) ==> metrics_report(metrics, args)
            == "Metrics for Neuron "@ + args[0] + ":\n"@ + join_lines(
            metric_lines(metrics[args[0]].pairs()),
        ),
        args.len() > 0 && !metrics.contains_key(args[0]) ==> metrics_report(metrics, args)
            == "No metrics available for Neuron "@ + args[0] + "."@,
{
}

/// Each command is answered by its own answer, for every record and every
/// argument list, the empty record included: `/neuron_status` by the status
/// answer, `/neuron_metrics` by the metrics answer, `/help` by the help text,
/// and anything else by the unknown-command notice.
pub proof fn lemma_telegram_dispatch(
    status: Seq<(Seq<char>, String)>,
    metrics: Map<Seq<char>, Table<String>>,
    command: Seq<char>,
    args: Seq<Seq<char>>,
)
    ensures
        telegram_response(status, metrics, "/neuron_status"@, args) == status_report(status),
        telegram_response(status, metrics, "/neuron_metrics"@, args) == metrics_report(
            metrics,
            args,
        ),
        telegram_response(status, metrics, "/help"@, args)
            == "Available commands:\n/neuron_status - Get status of all Neurons\n/neuron_metrics <neuron_id> - Get metrics of a specific Neuron\n/help - Show this help message"@,
        command != "/neuron_status"@ && command != "/neuron_metrics"@ && command != "/help"@
            ==> telegram_response(status, metrics, command, args)
            == "Unknown command. Type /help for available commands."@,
{
    reveal_strlit("/neuron_status");
    reveal_strlit("/neuron_metrics");
    reveal_strlit("/help");
    assert("/neuron_metrics"@.len() != "/neuron_status"@.len());
    assert("/help"@.len() != "/neuron_status"@.len());
    assert("/help"@.len() != "/neuron_metrics"@.len());
}

/// Whether `s` reads exactly as the literal `lit`.
fn text_is(s: &String, lit: &str) -> (b: bool)
    ensures
        b == (s@ == lit@),
{
    let t = String::from_str(lit);
    *s == t
}

/// The lines joined by line breaks.
fn join_text(lines: &Vec<String>) -> (r: String)
    ensures
        r@ == join_lines(texts(lines@)),
{
    let n = lines.len();
    let mut out = String::new();
    let mut i: usize = 0;
    while i < n
        invariant
            n == lines@.len(),
            i <= n,
            out@ == join_lines(texts(lines@).take(i as int)),
        decreases n - i,
    {
        let ghost before = out@;
        if i > 0 {
            out.append("\n");
        }
        out.append(lines[i].as_str());
        proof {
            let t = texts(lines@);
            assert(t.take(i + 1).drop_last() =~= t.take(i as int));
            if i == 0 {
                assert(before =~= Seq::<char>::empty());
                assert(out@ =~= t[0]);
            }
        }
        i += 1;
    }
    assert(texts(lines@).take(n as int) =~= texts(lines@));
    out
}

/// The supervisor's record of what the neurons reported.
pub struct Supervisor {
    neuron_status: Table<String>,
    neuron_metrics: Table<Table<String>>,
}

impl Supervisor {
    /// The latest status of each neuron, in the order in which the neurons
    /// first reported.
    pub closed spec fn status(&self) -> Seq<(Seq<char>, String)> {
        self.neuron_status.pairs()
    }

    /// The latest metrics of each neuron that reported metrics.
    pub closed spec fn metrics(&self) -> Map<Seq<char>, Table<String>> {
        as_map(self.neuron_metrics.pairs())
    }

    /// A supervisor to which no neuron has reported yet.
    pub fn new() -> (s: Self)
        ensures
            s.status() == Seq::<(Seq<char>, String)>::empty(),
            s.metrics() == Map::<Seq<char>, Table<String>>::empty(),
    {
        let s = Supervisor { neuron_status: Table::new(), neuron_metrics: Table::new() };
        assert(s.metrics() =~= Map::<Seq<char>, Table<String>>::empty());
        s
    }

    /// Records `status` as the latest status of `neuron_id`.
    pub fn process_neuron_status(&mut self, neuron_id: String, status: String)
        ensures
            final(self).status() == upsert(old(self).status(), neuron_id@, status),
            distinct_keys(final(self).status()),
            as_map(final(self).status()) == as_map(old(self).status()).insert(neuron_id@, status),
            final(self).metrics() == old(self).metrics(),
    {
        self.neuron_status.insert(neuron_id, status);
    }

    /// Records `metrics` as the latest metrics of `neuron_id`.
    pub fn process_neuron_metrics(&mut self, neuron_id: String, metrics: Table<String>)
        ensures
            final(self).metrics() == old(self).metrics().insert(neuron_id@, metrics),
            final(self).status() == old(self).status(),
    {
        self.neuron_metrics.insert(neuron_id, metrics);
    }

    /// The answer to `/neuron_status`: one line per neuron, or a notice when
    /// no neuron has reported.
    pub fn handle_neuron_status(&self) -> (r: String)
        ensures
            r@ == status_report(self.status()),
    {
        if self.neuron_status.is_empty() {
            return String::from_str("No neuron status available.");
        }
        let n = self.neuron_status.len();
        let mut lines: Vec<String> = Vec::new();
        let mut i: usize = 0;
        while i < n
            invariant
                n == self.status().len(),
                i <= n,
                lines@.len() == i,
                forall|j: int| 0 <= j < i ==> #[trigger] lines@[j]@ == status_lines(self.status())[j],
            decreases n - i,
        {
            let (neuron_id, status) = self.neuron_status.entry(i);
            let mut line = String::from_str("Neuron ");
            line.append(neuron_id.as_str());
            line.append(": ");
            line.append(status.as_str());
            lines.push(line);
            i += 1;
        }
        assert(texts(lines@) =~= status_lines(self.status()));
        join_text(&lines)
    }

    /// The answer to `/neuron_metrics`: the metrics of the neuron named by
    /// the first argument.
    pub fn handle_neuron_metrics(&self, args: Vec<String>) -> (r: String)
        ensures
            r@ == metrics_report(self.metrics(), texts(args@)),
    {
        if args.len() == 0 {
            return String::from_str(
                "Please provide a neuron ID. Usage: /neuron_metrics <neuron_id>",
            );
        }
        let neuron_id = &args[0];
        match self.neuron_metrics.get(neuron_id) {
            Some(metrics) => {
                let ghost p = metrics.pairs();
                let n = metrics.len();
                let mut lines: Vec<String> = Vec::new();
                let mut i: usize = 0;
                while i < n
                    invariant
                        n == p.len(),
                        p == metrics.pairs(),
                        i <= n,
                        lines@.len() == i,
                        forall|j: int| 0 <= j < i ==> #[trigger] lines@[j]@ == metric_lines(p)[j],
                    decreases n - i,
                {
                    let (name, value) = metrics.entry(i);
                    let mut line = name.clone();
                    line.append(": ");
                    line.append(value.as_str());
                    proof {
                        assert(line@ =~= metric_line(p[i as int].0, p[i as int].1@));
                    }
                    lines.push(line);
                    i += 1;
                }
                assert(texts(lines@) =~= metric_lines(p));
                let joined = join_text(&lines);
                let mut out = String::from_str("Metrics for Neuron ");
                out.append(neuron_id.as_str());
                out.append(":\n");
                out.append(joined.as_str());
                proof {
                    let q = self.neuron_metrics.pairs();
                    let k = key_index(q, neuron_id@);
                    assert(0 <= k < q.len() && q[k].0 == neuron_id@);
                }
                out
            },
            None => {
                let mut out = String::from_str("No metrics available for Neuron ");
                out.append(neuron_id.as_str());
                out.append(".");
                out
            },
        }
    }

    /// The answer to `/help`.
    pub fn handle_help(&self) -> (r: String)
        ensures
            r@ == help_text(),
    {
        String::from_str(
            "Available commands:\n/neuron_status - Get status of all Neurons\n/neuron_metrics <neuron_id> - Get metrics of a specific Neuron\n/help - Show this help message",
        )
    }

    /// The reply to the chat command `command` with arguments `args`: the
    /// command itself and the answer to it, to be sent to the chat bot.
    pub fn process_telegram_command(&self, command: String, args: Vec<String>) -> (r: (
        String,
        String,
    ))
        ensures
            r.0@ == command@,
            r.1@ == telegram_response(self.status(), self.metrics(), command@, texts(args@)),
    {
        let response = if text_is(&command, "/neuron_status") {
            self.handle_neuron_status()
        } else if text_is(&command, "/neuron_metrics") {
            self.handle_neuron_metrics(args)
        } else if text_is(&command, "/help") {
            self.handle_help()
        } else {
            String::from_str("Unknown command. Type /help for available commands.")
        };
        (command, response)
    }

    /// A copy of the latest statuses, as the status query returns them.
    pub fn get_neuron_status(&self) -> (r: Table<String>)
        ensures
            r.pairs() == self.status(),
            distinct_keys(r.pairs()),
    {
        self.neuron_status.duplicate()
    }

    /// A copy of the latest metrics of `neuron_id`, or an empty table when it
    /// reported none.
    pub fn get_neuron_metrics(&self, neuron_id: &String) -> (r: Table<String>)
        ensures
            r.pairs() == (if self.metrics().contains_key(neuron_id@) {
                self.metrics()[neuron_id@].pairs()
            } else {
                Seq::<(Seq<char>, String)>::empty()
            }),
            distinct_keys(r.pairs()),
    {
        match self.neuron_metrics.get(neuron_id) {
            Some(metrics) => {
                proof {
                    let q = self.neuron_metrics.pairs();
                    let k = key_index(q, neuron_id@);
                    assert(0 <= k < q.len() && q[k].0 == neuron_id@);
                }
                metrics.duplicate()
            },
            None => Table::new(),
        }
    }
}

} // verus!
