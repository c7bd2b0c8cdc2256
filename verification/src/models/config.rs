//! What the agent is configured with.

use std::collections::HashMap;
use vstd::prelude::*;
use vstd::string::StringExecFns;

verus! {

/// The whole configuration: what holds for the agent, and one section per
/// watched place.
#[derive(Debug)]
pub struct Config {
    pub settings: Settings,
    pub files: Vec<FileConfig>,
}

/// One watched place.
#[derive(Debug)]
pub struct FileConfig {
    /// where the table of tailed files of this place is persisted
    pub positions_file: String,
    /// the directory or file to watch
    pub path: String,
    pub labels: HashMap<String, String>,
    /// what the name of a file must match to be tailed
    pub file_regex: String,
    /// the longest time, in milliseconds, that lines wait to be forwarded
    pub forward_frequency_ms: u32,
    /// the most bytes that one read takes
    pub buffer_size: u32,
}

/// What holds for the agent as a whole.
#[derive(Debug)]
pub struct Settings {
    /// where the lines are forwarded to
    pub server: String,
    pub log_level: String,
    /// whether files that are there at startup are taken up
    pub scan_existing: bool,
}

/// The character that stands for a digit.
pub open spec fn digit(d: nat) -> char {
    if d == 0 {
        '0'
    } else if d == 1 {
        '1'
    } else if d == 2 {
        '2'
    } else if d == 3 {
        '3'
    } else if d == 4 {
        '4'
    } else if d == 5 {
        '5'
    } else if d == 6 {
        '6'
    } else if d == 7 {
        '7'
    } else if d == 8 {
        '8'
    } else {
        '9'
    }
}

/// A number written in decimal, without leading zeros.
pub open spec fn decimal(n: nat) -> Seq<char>
    decreases n,
{
    if n < 10 {
        seq![digit(n)]
    } else {
        decimal(n / 10).push(digit(n % 10))
    }
}

/// The sections of watched places as they are shown: each after a line
/// break, in order.
pub open spec fn files_text(files: Seq<FileConfig>) -> Seq<char>
    decreases files.len(),
{
    if files.len() == 0 {
        Seq::empty()
    } else {
        files_text(files.drop_last()) + "\n"@ + files.last().text()
    }
}

fn digit_text(d: u32) -> (r: &'static str)
    requires
        d < 10,
    ensures
        r@ == seq![digit(d as nat)],
{
    proof {
        reveal_strlit("0");
        reveal_strlit("1");
        reveal_strlit("2");
        reveal_strlit("3");
        reveal_strlit("4");
        reveal_strlit("5");
        reveal_strlit("6");
        reveal_strlit("7");
        reveal_strlit("8");
        reveal_strlit("9");
    }
    let text = if d == 0 {
        "0"
    } else if d == 1 {
        "1"
    } else if d == 2 {
        "2"
    } else if d == 3 {
        "3"
    } else if d == 4 {
        "4"
    } else if d == 5 {
        "5"
    } else if d == 6 {
        "6"
    } else if d == 7 {
        "7"
    } else if d == 8 {
        "8"
    } else {
        "9"
    };
    proof {
        assert(text@ =~= seq![digit(d as nat)]);
    }
    text
}

/// `n` written in decimal.
pub fn decimal_text(n: u32) -> (r: String)
    ensures
        r@ == decimal(n as nat),
    decreases n,
{
    if n < 10 {
        digit_text(n).to_string()
    } else {
        let mut text = decimal_text(n / 10);
        text.append(digit_text(n % 10));
        text
    }
}

impl Clone for Settings {
    fn clone(&self) -> (r: Self)
        ensures
            r.server@ == self.server@,
            r.log_level@ == self.log_level@,
            r.scan_existing == self.scan_existing,
    {
        Settings {
            server: self.server.clone(),
            log_level: self.log_level.clone(),
            scan_existing: self.scan_existing,
        }
    }
}

impl Clone for FileConfig {
    fn clone(&self) -> (r: Self)
        ensures
            self.same_as(r),
    {
        FileConfig {
            positions_file: self.positions_file.clone(),
            path: self.path.clone(),
            labels: self.labels.clone(),
            file_regex: self.file_regex.clone(),
            forward_frequency_ms: self.forward_frequency_ms,
            buffer_size: self.buffer_size,
        }
    }
}

impl Clone for Config {
    fn clone(&self) -> (r: Self)
        ensures
            r.settings.server@ == self.settings.server@,
            r.settings.log_level@ == self.settings.log_level@,
            r.settings.scan_existing == self.settings.scan_existing,
            r.files@.len() == self.files@.len(),
            forall|i: int|
                0 <= i < self.files@.len() ==> self.files@[i].same_as(#[trigger] r.files@[i]),
    {
        let files = self.files.clone();
        proof {
            assert forall|i: int| 0 <= i < self.files@.len() implies self.files@[i].same_as(
                #[trigger] files@[i],
            ) by {
                assert(cloned(self.files@[i], files@[i]));
            }
        }
        Config { settings: self.settings.clone(), files }
    }
}

impl Settings {
    /// The settings as they are shown.
    pub open spec fn text(&self) -> Seq<char> {
        "Settings:\n  address: "@ + self.server@
    }

    /// The settings as they are shown: the address of the collector.
    pub fn to_text(&self) -> (r: String)
        ensures
            r@ == self.text(),
    {
        let mut text = "Settings:\n  address: ".to_string();
        text.append(self.server.as_str());
        text
    }
}

impl FileConfig {
    /// `other` says the same as `self`, field by field.
    pub open spec fn same_as(&self, other: FileConfig) -> bool {
        &&& other.positions_file@ == self.positions_file@
        &&& other.path@ == self.path@
        &&& other.labels@ == self.labels@
        &&& other.file_regex@ == self.file_regex@
        &&& other.forward_frequency_ms == self.forward_frequency_ms
        &&& other.buffer_size == self.buffer_size
    }

    /// A watched place as it is shown.
    pub open spec fn text(&self) -> Seq<char> {
        "Files\nPath: "@ + self.path@ + "\n    File Regex: "@ + self.file_regex@
            + "\n    Forward Frequency: "@ + decimal(self.forward_frequency_ms as nat)
            + "ms\n    Buffer Size (Byte): "@ + decimal(self.buffer_size as nat) + "\n"@
    }

    /// A watched place as it is shown: its path, what its files must
    /// match, how long lines wait and how much one read takes.
    pub fn to_text(&self) -> (r: String)
        ensures
            r@ == self.text(),
    {
        let mut text = "Files\nPath: ".to_string();
        text.append(self.path.as_str());
        text.append("\n    File Regex: ");
        text.append(self.file_regex.as_str());
        text.append("\n    Forward Frequency: ");
        text.append(decimal_text(self.forward_frequency_ms).as_str());
        text.append("ms\n    Buffer Size (Byte): ");
        text.append(decimal_text(self.buffer_size).as_str());
        text.append("\n");
        text
    }
}

impl Config {
    /// The configuration as it is shown.
    pub open spec fn text(&self) -> Seq<char> {
        "\n"@ + self.settings.text() + files_text(self.files@)
    }

    /// The configuration as it is shown: the settings, then each watched
    /// place, each after a line break.
    pub fn to_text(&self) -> (r: String)
        ensures
            r@ == self.text(),
    {
        let mut text = "\n".to_string();
        text.append(self.settings.to_text().as_str());
        let mut i: usize = 0;
        while i < self.files.len()
            invariant
                i <= self.files@.len(),
                text@ == "\n"@ + self.settings.text() + files_text(self.files@.take(i as int)),
            decreases self.files@.len() - i,
        {
            proof {
                assert(self.files@.take(i + 1).drop_last() =~= self.files@.take(i as int));
                assert(self.files@.take(i + 1).last() == self.files@[i as int]);
            }
            text.append("\n");
            text.append(self.files[i].to_text().as_str());
            proof {
                assert(text@ =~= "\n"@ + self.settings.text() + files_text(
                    self.files@.take(i + 1),
                ));
            }
            i += 1;
        }
        proof {
            assert(self.files@.take(i as int) =~= self.files@);
        }
        text
    }
}

/// The log level of an agent that is configured with none.
pub fn default_loglevel() -> (r: String)
    ensures
        r@ == "warn"@,
{
    "warn".to_string()
}

/// The `buffer_size` of a watched place that is configured with none.
pub fn default_buffersize() -> (r: u32)
    ensures
        r == 1_000_000,
{
    1_000_000
}

/// The `forward_frequency_ms` of a watched place that is configured with
/// none.
pub fn default_forward_frequency_ms() -> (r: u32)
    ensures
        r == 5000,
{
    5000
}

/// The `scan_existing` of an agent that is configured with none.
pub fn default_scan_existing() -> (r: bool)
    ensures
        !r,
{
    false
}

} // verus!
