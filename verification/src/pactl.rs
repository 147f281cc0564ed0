//! What the answers of `pactl` mean: how it is called, and what follows from how
//! a call ended.

use vstd::prelude::*;
use vstd::string::*;

use crate::audio::{
    described_inventory, inventory_from_pactl_text, listed_devices, parse_device_descriptions,
    AudioError, AudioErrorView, AudioInventory, InventoryView,
};
use crate::text::{
    concat2, concat3, concat4, decimal, join, joined, parse_u32, parsed_u32, split_whitespace, trim,
    trim_of, u64_to_string, views, words_of,
};

verus! {

/// How a call of `pactl` ended.
#[derive(Debug, Clone, PartialEq, Eq)]
pub enum PactlRun {
    /// It could not be run; perhaps it is not there.
    NotRun { missing: bool, error: String },
    /// It failed, with this on stderr.
    Failed(String),
    /// It went well, with this on stdout.
    Ran(String),
}

/// What a result says.
pub open spec fn result_view<T>(r: Result<T, AudioError>) -> Result<T, AudioErrorView> {
    match r {
        Ok(v) => Ok(v),
        Err(e) => Err(e@),
    }
}

/// What a result with a text says.
pub open spec fn text_result(r: Result<String, AudioError>) -> Result<Seq<char>, AudioErrorView> {
    match r {
        Ok(s) => Ok(s@),
        Err(e) => Err(e@),
    }
}

/// What a call printed, or why it did not.
pub open spec fn printed(
    args: Seq<Seq<char>>,
    run: PactlRun,
) -> Result<Seq<char>, AudioErrorView> {
    match run {
        PactlRun::NotRun { missing, error } => if missing {
            Err(AudioErrorView::PactlMissing)
        } else {
            Err(AudioErrorView::Message("pactl: "@ + error@))
        },
        PactlRun::Failed(stderr) => Err(
            AudioErrorView::Message(
                "pactl "@ + joined(args, " "@) + " failed: "@ + trim_of(stderr@),
            ),
        ),
        PactlRun::Ran(stdout) => Ok(stdout@),
    }
}

/// What a call printed, or why it did not.
pub fn pactl_output(args: &Vec<String>, run: PactlRun) -> (r: Result<String, AudioError>)
    ensures
        text_result(r) == printed(views(args@), run),
{
    match run {
        PactlRun::NotRun { missing, error } => if missing {
            Err(AudioError::PactlMissing)
        } else {
            Err(AudioError::Message(concat2("pactl: ", error.as_str())))
        },
        PactlRun::Failed(stderr) => Err(
            AudioError::Message(
                concat4(
                    "pactl ",
                    join(args, " ").as_str(),
                    " failed: ",
                    trim(stderr.as_str()),
                ),
            ),
        ),
        PactlRun::Ran(stdout) => Ok(stdout),
    }
}

/// The default device that was printed, or that there is none of the kind.
pub fn default_device(found: Result<String, AudioError>, kind: &str) -> (r: Result<
    String,
    AudioError,
>)
    ensures
        text_result(r) == (match text_result(found) {
            Ok(s) => if trim_of(s).len() == 0 {
                Err(AudioErrorView::Message("no default "@ + kind@))
            } else {
                Ok(trim_of(s))
            },
            Err(e) => Err(e),
        }),
{
    match found {
        Ok(s) => {
            let name = trim(s.as_str());
            if name.is_empty() {
                Err(AudioError::Message(concat2("no default ", kind)))
            } else {
                Ok(name.to_owned())
            }
        },
        Err(e) => Err(e),
    }
}

/// The arguments that load a module: its name, and each word of its own.
pub fn load_module_args(name: &str, args: &str) -> (r: Vec<String>)
    ensures
        views(r@) == seq!["load-module"@, name@] + words_of(args@),
{
    let words = split_whitespace(args);
    let mut out: Vec<String> = Vec::new();
    out.push("load-module".to_owned());
    out.push(name.to_owned());
    let mut i: usize = 0;
    while i < words.len()
        invariant
            i <= words.len(),
            out.len() == i + 2,
            out@[0]@ == "load-module"@,
            out@[1]@ == name@,
            forall|k: int| 0 <= k < i ==> (#[trigger] out@[k + 2])@ == words@[k]@,
        decreases words.len() - i,
    {
        out.push(words[i].clone());
        i = i + 1;
    }
    proof {
        let want = seq!["load-module"@, name@] + views(words@);
        assert forall|k: int| 0 <= k < want.len() implies views(out@)[k] == want[k] by {
            if k >= 2 {
                assert(out@[(k - 2) + 2]@ == want[k]);
            }
        }
        assert(views(out@) =~= want);
    }
    out
}

/// The number of the module that was loaded.
pub open spec fn loaded(name: Seq<char>, run: PactlRun) -> Result<u32, AudioErrorView> {
    match run {
        PactlRun::NotRun { missing, error } => Err(
            AudioErrorView::Message("pactl load-module: "@ + error@),
        ),
        PactlRun::Failed(stderr) => Err(
            AudioErrorView::Message(
                "pactl load-module "@ + name + " failed: "@ + trim_of(stderr@),
            ),
        ),
        PactlRun::Ran(stdout) => match parsed_u32(trim_of(stdout@)) {
            Some(id) => Ok(id),
            None => Err(AudioErrorView::Message("bad module id: "@ + trim_of(stdout@))),
        },
    }
}

/// The number of the module that was loaded.
pub fn loaded_module(name: &str, run: PactlRun) -> (r: Result<u32, AudioError>)
    ensures
        result_view(r) == loaded(name@, run),
{
    match run {
        PactlRun::NotRun { missing: _, error } => Err(
            AudioError::Message(concat2("pactl load-module: ", error.as_str())),
        ),
        PactlRun::Failed(stderr) => Err(
            AudioError::Message(
                concat4("pactl load-module ", name, " failed: ", trim(stderr.as_str())),
            ),
        ),
        PactlRun::Ran(stdout) => {
            let text = trim(stdout.as_str());
            match parse_u32(text) {
                Some(id) => Ok(id),
                None => Err(AudioError::Message(concat2("bad module id: ", text))),
            }
        },
    }
}

/// Whether unloading a module went well; one that is gone already is fine.
pub fn unloaded_module(run: PactlRun) -> (r: Result<(), AudioError>)
    ensures
        result_view(r) == (match run {
            PactlRun::NotRun { missing, error } => Err(
                AudioErrorView::Message("pactl unload-module: "@ + error@),
            ),
            _ => Ok(()),
        }),
{
    match run {
        PactlRun::NotRun { missing: _, error } => Err(
            AudioError::Message(concat2("pactl unload-module: ", error.as_str())),
        ),
        _ => Ok(()),
    }
}

/// Whether moving an application went well.
pub fn moved_sink_input(index: u32, sink: &str, run: PactlRun) -> (r: Result<(), AudioError>)
    ensures
        result_view(r) == (match run {
            PactlRun::NotRun { missing, error } => Err(
                AudioErrorView::Message("pactl move-sink-input: "@ + error@),
            ),
            PactlRun::Failed(stderr) => Err(
                AudioErrorView::Message(
                    "move-sink-input "@ + decimal(index as nat) + " → "@ + sink@ + ": "@ + trim_of(
                        stderr@,
                    ),
                ),
            ),
            PactlRun::Ran(_) => Ok(()),
        }),
{
    match run {
        PactlRun::NotRun { missing: _, error } => Err(
            AudioError::Message(concat2("pactl move-sink-input: ", error.as_str())),
        ),
        PactlRun::Failed(stderr) => {
            let mut m = concat3("move-sink-input ", u64_to_string(index as u64).as_str(), " → ");
            m.append(sink);
            m.append(": ");
            m.append(trim(stderr.as_str()));
            Err(AudioError::Message(m))
        },
        PactlRun::Ran(_) => Ok(()),
    }
}

/// What the calls of `pactl` that list the devices came to.
#[derive(Debug)]
pub struct Listing {
    /// `list short sinks`
    pub sinks_short: Result<String, AudioError>,
    /// `list short sources`
    pub sources_short: Result<String, AudioError>,
    /// `list sink-inputs`
    pub sink_inputs: Result<String, AudioError>,
    /// `get-default-sink`
    pub default_sink: Result<String, AudioError>,
    /// `get-default-source`
    pub default_source: Result<String, AudioError>,
    /// `list sinks`
    pub sinks: Result<String, AudioError>,
    /// `list sources`
    pub sources: Result<String, AudioError>,
}

/// A text that can be done without.
pub open spec fn or_empty(r: Result<String, AudioError>) -> Seq<char> {
    match r {
        Ok(s) => s@,
        Err(_) => Seq::empty(),
    }
}

fn text_or_empty(r: Result<String, AudioError>) -> (t: String)
    ensures
        t@ == or_empty(r),
{
    match r {
        Ok(s) => s,
        Err(_) => {
            let t = String::new();
            assert(t@ =~= Seq::<char>::empty());
            t
        },
    }
}

/// What an inventory that was looked for says.
pub open spec fn inventory_result(r: Result<AudioInventory, AudioError>) -> Result<
    InventoryView,
    AudioErrorView,
> {
    match r {
        Ok(i) => Ok(i@),
        Err(e) => Err(e@),
    }
}

/// The inventory of a listing: the short lists are needed, the rest is taken as
/// far as it is there.
pub open spec fn listed_inventory(l: Listing) -> Result<InventoryView, AudioErrorView> {
    match (l.sinks_short, l.sources_short) {
        (Err(e), _) => Err(e@),
        (Ok(_), Err(e)) => Err(e@),
        (Ok(sinks), Ok(sources)) => Ok(
            described_inventory(
                sinks@,
                sources@,
                or_empty(l.sink_inputs),
                trim_of(or_empty(l.default_sink)),
                trim_of(or_empty(l.default_source)),
                listed_devices(or_empty(l.sinks)),
                listed_devices(or_empty(l.sources)),
            ),
        ),
    }
}

/// The inventory of a listing.
pub fn inventory_from_listing(l: Listing) -> (r: Result<AudioInventory, AudioError>)
    ensures
        inventory_result(r) == listed_inventory(l),
{
    let sinks_short = match l.sinks_short {
        Ok(s) => s,
        Err(e) => {
            return Err(e);
        },
    };
    let sources_short = match l.sources_short {
        Ok(s) => s,
        Err(e) => {
            return Err(e);
        },
    };
    let sink_inputs = text_or_empty(l.sink_inputs);
    let default_sink = text_or_empty(l.default_sink);
    let default_source = text_or_empty(l.default_source);
    let sink_descs = parse_device_descriptions(text_or_empty(l.sinks).as_str());
    let source_descs = parse_device_descriptions(text_or_empty(l.sources).as_str());
    Ok(
        inventory_from_pactl_text(
            sinks_short.as_str(),
            sources_short.as_str(),
            sink_inputs.as_str(),
            trim(default_sink.as_str()),
            trim(default_source.as_str()),
            &sink_descs,
            &source_descs,
        ),
    )
}

} // verus!
