//! The command lines of the two programs.

use crate::text::{owned, same_text};
use vstd::prelude::*;
use vstd::string::*;

verus! {

/// What the report program is asked for.
#[derive(Debug)]
pub enum ReportCommand {
    /// The report on the latest session.
    ShowLatest,
    /// The report on one session.
    Show { session_id: String },
    /// The list of sessions.
    List,
    /// The comparison of all strategies.
    Compare,
    /// The definitions of the strategies.
    Strategies,
    /// The help text.
    Help,
    /// The export of the latest session.
    ExportLatest,
    /// The export of one session.
    Export { session_id: String },
}

impl ReportCommand {
    /// Whether a command is what the arguments ask for. The first argument is the
    /// name of the program.
    pub open spec fn asked_by(self, args: Seq<String>) -> bool {
        if args.len() < 2 {
            self is ShowLatest
        } else {
            let word = args[1]@;
            if word == "--list"@ || word == "-l"@ {
                self is List
            } else if word == "--compare"@ || word == "-c"@ {
                self is Compare
            } else if word == "--strategies"@ || word == "-s"@ {
                self is Strategies
            } else if word == "--help"@ || word == "-h"@ {
                self is Help
            } else if word == "--export"@ || word == "-e"@ {
                if args.len() > 2 {
                    self == ReportCommand::Export { session_id: args[2] }
                } else {
                    self is ExportLatest
                }
            } else {
                self == ReportCommand::Show { session_id: args[1] }
            }
        }
    }

    /// What the arguments ask for.
    pub fn parse(args: &Vec<String>) -> (command: Self)
        ensures
            command.asked_by(args@),
    {
        if args.len() < 2 {
            return ReportCommand::ShowLatest;
        }
        let word: &str = args[1].as_str();
        if same_text(word, "--list") || same_text(word, "-l") {
            ReportCommand::List
        } else if same_text(word, "--compare") || same_text(word, "-c") {
            ReportCommand::Compare
        } else if same_text(word, "--strategies") || same_text(word, "-s") {
            ReportCommand::Strategies
        } else if same_text(word, "--help") || same_text(word, "-h") {
            ReportCommand::Help
        } else if same_text(word, "--export") || same_text(word, "-e") {
            if args.len() > 2 {
                ReportCommand::Export { session_id: args[2].clone() }
            } else {
                ReportCommand::ExportLatest
            }
        } else {
            ReportCommand::Show { session_id: args[1].clone() }
        }
    }
}

/// What the price collector is asked for.
#[derive(Debug, Clone, Copy, PartialEq, Eq, Structural)]
pub enum CollectorCommand {
    /// To collect the prices of this moment.
    Collect,
    /// To analyze what was collected.
    Analyze,
    /// The help text.
    Help,
}

impl CollectorCommand {
    /// What the arguments ask for. The first argument is the name of the program.
    pub open spec fn asked(args: Seq<String>) -> CollectorCommand {
        if args.len() > 1 && args[1]@ == "--analyze"@ {
            CollectorCommand::Analyze
        } else if args.len() > 1 && args[1]@ == "--help"@ {
            CollectorCommand::Help
        } else {
            CollectorCommand::Collect
        }
    }

    /// What the arguments ask for.
    pub fn parse(args: &Vec<String>) -> (command: Self)
        ensures
            command == CollectorCommand::asked(args@),
    {
        if args.len() > 1 && same_text(args[1].as_str(), "--analyze") {
            CollectorCommand::Analyze
        } else if args.len() > 1 && same_text(args[1].as_str(), "--help") {
            CollectorCommand::Help
        } else {
            CollectorCommand::Collect
        }
    }
}

/// The help text of the report program.
pub fn report_help() -> (text: String)
    ensures
        text@ == "
Backtest Report CLI

USAGE:
    backtest-report [OPTIONS] [SESSION_ID]

OPTIONS:
    -l, --list        List all sessions
    -c, --compare     Compare strategies across all sessions
    -s, --strategies  Show strategy definitions
    -e, --export      Export session data to CSV
    -h, --help        Print this help message

EXAMPLES:
    backtest-report                  # Show latest session report
    backtest-report --list           # List all sessions
    backtest-report session_xxx      # Show specific session
    backtest-report --compare        # Compare strategy performance
    backtest-report --export         # Export latest session to CSV

"@,
{
    owned("
Backtest Report CLI

USAGE:
    backtest-report [OPTIONS] [SESSION_ID]

OPTIONS:
    -l, --list        List all sessions
    -c, --compare     Compare strategies across all sessions
    -s, --strategies  Show strategy definitions
    -e, --export      Export session data to CSV
    -h, --help        Print this help message

EXAMPLES:
    backtest-report                  # Show latest session report
    backtest-report --list           # List all sessions
    backtest-report session_xxx      # Show specific session
    backtest-report --compare        # Compare strategy performance
    backtest-report --export         # Export latest session to CSV

")
}

/// The help text of the price collector.
pub fn collector_help() -> (text: String)
    ensures
        text@ == "Price Collector - Periodic snapshot tool

Usage:
  price-collector           Collect price snapshot
  price-collector --analyze Analyze collected data

Environment:
  KALSHI_API_KEY_ID    Kalshi API key (optional for public data)
"@,
{
    owned("Price Collector - Periodic snapshot tool

Usage:
  price-collector           Collect price snapshot
  price-collector --analyze Analyze collected data

Environment:
  KALSHI_API_KEY_ID    Kalshi API key (optional for public data)
")
}

/// A command of the report program is asked for by its two words alone: a long one and a
/// short one. A name of a session counts behind the words of the export, or in place of
/// any of them; where nothing is said, the latest session is shown.
pub proof fn words_ask_for_their_commands(command: ReportCommand, args: Seq<String>)
    requires
        command.asked_by(args),
    ensures
        args.len() < 2 <==> command is ShowLatest,
        args.len() >= 2 ==> (command is List <==> args[1]@ == "--list"@ || args[1]@ == "-l"@),
        args.len() >= 2 ==> (command is Compare <==> args[1]@ == "--compare"@ || args[1]@
            == "-c"@),
        args.len() >= 2 ==> (command is Strategies <==> args[1]@ == "--strategies"@ || args[1]@
            == "-s"@),
        args.len() >= 2 ==> (command is Help <==> args[1]@ == "--help"@ || args[1]@ == "-h"@),
        args.len() >= 2 ==> (command is Export || command is ExportLatest <==> args[1]@
            == "--export"@ || args[1]@ == "-e"@),
        command is ExportLatest ==> args.len() == 2,
        command matches ReportCommand::Export { session_id } ==> args.len() > 2 && session_id
            == args[2],
        command matches ReportCommand::Show { session_id } ==> args.len() >= 2 && session_id
            == args[1],
{
    reveal_strlit("--list");
    reveal_strlit("-l");
    reveal_strlit("--compare");
    reveal_strlit("-c");
    reveal_strlit("--strategies");
    reveal_strlit("-s");
    reveal_strlit("--help");
    reveal_strlit("-h");
    reveal_strlit("--export");
    reveal_strlit("-e");
    if args.len() >= 2 {
        let word = args[1]@;
        assert(word == "-l"@ ==> word[1] == 'l');
        assert(word == "-c"@ ==> word[1] == 'c');
        assert(word == "-s"@ ==> word[1] == 's');
        assert(word == "-h"@ ==> word[1] == 'h');
        assert(word == "-e"@ ==> word[1] == 'e');
        assert(word == "--list"@ ==> word[2] == 'l');
        assert(word == "--compare"@ ==> word[2] == 'c');
        assert(word == "--strategies"@ ==> word[2] == 's');
        assert(word == "--help"@ ==> word[2] == 'h');
        assert(word == "--export"@ ==> word[2] == 'e');
    }
}

/// The price collector analyzes or helps where its first word says so, whatever else is
/// said, and collects in all other cases.
pub proof fn words_ask_the_collector(args: Seq<String>)
    ensures
        CollectorCommand::asked(args) is Analyze <==> args.len() > 1 && args[1]@ == "--analyze"@,
        CollectorCommand::asked(args) is Help <==> args.len() > 1 && args[1]@ == "--help"@,
{
    reveal_strlit("--analyze");
    reveal_strlit("--help");
    if args.len() > 1 && args[1]@ == "--help"@ {
        assert(args[1]@.len() == 6);
    }
}

} // verus!
