use neurox::supervisor::Supervisor;
use neurox::table::Table;

fn s(x: &str) -> String {
    x.to_string()
}

fn metrics_of(pairs: &[(&str, &str)]) -> Table<String> {
    let mut t = Table::new();
    for (k, v) in pairs {
        t.insert(s(k), s(v));
    }
    t
}

const HELP: &str = "Available commands:\n/neuron_status - Get status of all Neurons\n/neuron_metrics <neuron_id> - Get metrics of a specific Neuron\n/help - Show this help message";

#[test]
fn status_of_empty_supervisor() {
    let sup = Supervisor::new();
    assert_eq!(sup.handle_neuron_status(), "No neuron status available.");
    assert_eq!(sup.get_neuron_status().len(), 0);
}

#[test]
fn status_lists_neurons_in_order() {
    let mut sup = Supervisor::new();
    sup.process_neuron_status(s("n1"), s("active"));
    sup.process_neuron_status(s("n2"), s("idle"));
    assert_eq!(sup.handle_neuron_status(), "Neuron n1: active\nNeuron n2: idle");
}

#[test]
fn latest_status_wins_and_keeps_its_place() {
    let mut sup = Supervisor::new();
    sup.process_neuron_status(s("n1"), s("active"));
    sup.process_neuron_status(s("n2"), s("idle"));
    sup.process_neuron_status(s("n1"), s("down"));
    assert_eq!(sup.handle_neuron_status(), "Neuron n1: down\nNeuron n2: idle");
    let copy = sup.get_neuron_status();
    assert_eq!(copy.len(), 2);
    assert_eq!(copy.get(&s("n1")), Some(&s("down")));
}

#[test]
fn single_status_has_no_line_break() {
    let mut sup = Supervisor::new();
    sup.process_neuron_status(s("solo"), s("ok"));
    assert_eq!(sup.handle_neuron_status(), "Neuron solo: ok");
}

#[test]
fn metrics_without_argument_asks_for_an_id() {
    let sup = Supervisor::new();
    assert_eq!(
        sup.handle_neuron_metrics(vec![]),
        "Please provide a neuron ID. Usage: /neuron_metrics <neuron_id>"
    );
}

#[test]
fn metrics_of_unknown_neuron() {
    let sup = Supervisor::new();
    assert_eq!(
        sup.handle_neuron_metrics(vec![s("n9")]),
        "No metrics available for Neuron n9."
    );
}

#[test]
fn metrics_read_after_write() {
    let mut sup = Supervisor::new();
    sup.process_neuron_metrics(s("n1"), metrics_of(&[("accuracy", "0.93"), ("loss", "0.07")]));
    assert_eq!(
        sup.handle_neuron_metrics(vec![s("n1"), s("ignored")]),
        "Metrics for Neuron n1:\naccuracy: 0.93\nloss: 0.07"
    );
    let got = sup.get_neuron_metrics(&s("n1"));
    assert_eq!(got.len(), 2);
    assert_eq!(got.get(&s("loss")), Some(&s("0.07")));
}

#[test]
fn latest_metrics_replace_earlier_ones() {
    let mut sup = Supervisor::new();
    sup.process_neuron_metrics(s("n1"), metrics_of(&[("accuracy", "0.5")]));
    sup.process_neuron_metrics(s("n1"), metrics_of(&[("loss", "1")]));
    assert_eq!(sup.handle_neuron_metrics(vec![s("n1")]), "Metrics for Neuron n1:\nloss: 1");
}

#[test]
fn empty_metrics_report() {
    let mut sup = Supervisor::new();
    sup.process_neuron_metrics(s("n1"), Table::new());
    assert_eq!(sup.handle_neuron_metrics(vec![s("n1")]), "Metrics for Neuron n1:\n");
}

#[test]
fn metrics_query_of_unknown_neuron_is_empty() {
    let mut sup = Supervisor::new();
    sup.process_neuron_metrics(s("n1"), metrics_of(&[("accuracy", "0.5")]));
    assert_eq!(sup.get_neuron_metrics(&s("n2")).len(), 0);
    assert!(sup.get_neuron_metrics(&s("n2")).is_empty());
}

#[test]
fn metrics_do_not_touch_status() {
    let mut sup = Supervisor::new();
    sup.process_neuron_status(s("n1"), s("active"));
    sup.process_neuron_metrics(s("n1"), metrics_of(&[("accuracy", "0.5")]));
    assert_eq!(sup.handle_neuron_status(), "Neuron n1: active");
}

#[test]
fn help_text() {
    let sup = Supervisor::new();
    assert_eq!(sup.handle_help(), HELP);
}

#[test]
fn telegram_commands_dispatch() {
    let mut sup = Supervisor::new();
    sup.process_neuron_status(s("n1"), s("active"));
    sup.process_neuron_metrics(s("n1"), metrics_of(&[("accuracy", "0.5")]));

    let (c, r) = sup.process_telegram_command(s("/neuron_status"), vec![]);
    assert_eq!(c, "/neuron_status");
    assert_eq!(r, "Neuron n1: active");

    let (c, r) = sup.process_telegram_command(s("/neuron_metrics"), vec![s("n1")]);
    assert_eq!(c, "/neuron_metrics");
    assert_eq!(r, "Metrics for Neuron n1:\naccuracy: 0.5");

    let (_, r) = sup.process_telegram_command(s("/neuron_metrics"), vec![]);
    assert_eq!(r, "Please provide a neuron ID. Usage: /neuron_metrics <neuron_id>");

    let (c, r) = sup.process_telegram_command(s("/help"), vec![s("x")]);
    assert_eq!(c, "/help");
    assert_eq!(r, HELP);
}

#[test]
fn unknown_command() {
    let sup = Supervisor::new();
    let (c, r) = sup.process_telegram_command(s("/start"), vec![]);
    assert_eq!(c, "/start");
    assert_eq!(r, "Unknown command. Type /help for available commands.");
    let (_, r) = sup.process_telegram_command(s("neuron_status"), vec![]);
    assert_eq!(r, "Unknown command. Type /help for available commands.");
}

#[test]
fn fixed_answers_do_not_depend_on_reports() {
    let empty = Supervisor::new();
    let mut busy = Supervisor::new();
    busy.process_neuron_status(s("n1"), s("active"));
    busy.process_neuron_metrics(s("n1"), metrics_of(&[("a", "1")]));
    assert_eq!(
        empty.process_telegram_command(s("/help"), vec![]).1,
        busy.process_telegram_command(s("/help"), vec![s("n1")]).1
    );
    assert_eq!(
        empty.process_telegram_command(s("/what"), vec![]).1,
        busy.process_telegram_command(s("/what"), vec![s("n1")]).1
    );
}
