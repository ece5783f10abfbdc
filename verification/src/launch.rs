//! What the program does at launch: where it logs, what its window is called,
//! and where its icons come from.

use vstd::prelude::*;

use crate::text;

verus! {

// ---------------------------------------------------------------------------
// Channel
// ---------------------------------------------------------------------------

/// The name of the log of a build: the stable one has no console.
pub open spec fn channel_of(windowed: bool) -> Seq<char> {
    if windowed {
        "rift-stable"@
    } else {
        "rift-dev"@
    }
}

/// The name of the log of a build.
pub fn log_channel(windowed: bool) -> (channel: &'static str)
    ensures
        channel@ == channel_of(windowed),
{
    if windowed {
        "rift-stable"
    } else {
        "rift-dev"
    }
}

/// The directory of the log below the platform's directory, and the log's file
/// name.
pub fn log_file_parts(windowed: bool) -> (parts: (&'static str, String))
    ensures
        parts.0@ == "rift"@,
        parts.1@ == channel_of(windowed) + ".log"@,
{
    let mut name = log_channel(windowed).to_owned();
    name.append(".log");
    ("rift", name)
}

/// The title of the window.
pub fn window_title(windowed: bool) -> (title: &'static str)
    ensures
        title@ == if windowed {
            "rift"@
        } else {
            "rift (dev)"@
        },
{
    if windowed {
        "rift"
    } else {
        "rift (dev)"
    }
}

/// The two builds never log to the same file.
pub proof fn law_channels_differ()
    ensures
        channel_of(true) != channel_of(false),
        channel_of(true) + ".log"@ != channel_of(false) + ".log"@,
{
    reveal_strlit("rift-stable");
    reveal_strlit("rift-dev");
    assert(channel_of(true).len() == 11 && channel_of(false).len() == 8);
    assert((channel_of(true) + ".log"@).len() != (channel_of(false) + ".log"@).len());
}

/// Where the log goes.
#[derive(Clone, Copy, Debug, PartialEq, Eq, Structural)]
pub enum LogTarget {
    Console,
    File,
}

/// Where the log goes in the end: to the console where the file cannot be
/// opened.
pub fn log_sink(target: LogTarget, file_opened: bool) -> (sink: LogTarget)
    ensures
        sink == if target == LogTarget::File && file_opened {
            LogTarget::File
        } else {
            LogTarget::Console
        },
{
    match target {
        LogTarget::File => if file_opened {
            LogTarget::File
        } else {
            LogTarget::Console
        },
        LogTarget::Console => LogTarget::Console,
    }
}

// ---------------------------------------------------------------------------
// Assets
// ---------------------------------------------------------------------------

/// The directory of rift's own icons.
pub const FILE_ICONS_PREFIX: &'static str = "file_icons/";

/// Who serves an asset.
#[derive(Clone, Copy, Debug, PartialEq, Eq, Structural)]
pub enum AssetRoute {
    /// rift's own icons.
    FileIcons,
    /// The widget toolkit's icons.
    Toolkit,
}

/// Who serves the asset at `path`, or lists the assets below it: the path alone
/// decides, so that a missing asset is reported by the one it belongs to.
pub fn asset_route(path: &str) -> (route: AssetRoute)
    ensures
        route == if FILE_ICONS_PREFIX@.is_prefix_of(path@) {
            AssetRoute::FileIcons
        } else {
            AssetRoute::Toolkit
        },
{
    if text::starts_with(path, FILE_ICONS_PREFIX) {
        AssetRoute::FileIcons
    } else {
        AssetRoute::Toolkit
    }
}

/// `kept` lists the places of the names that begin with `path`, in order.
pub open spec fn lists_below(path: Seq<char>, names: Seq<String>, kept: Seq<usize>) -> bool {
    &&& forall|i: int, j: int| 0 <= i < j < kept.len() ==> kept[i] < kept[j]
    &&& forall|i: int|
        0 <= i < kept.len() ==> #[trigger] kept[i] < names.len() && path.is_prefix_of(
            names[kept[i] as int]@,
        )
    &&& forall|k: int|
        0 <= k < names.len() && path.is_prefix_of((#[trigger] names[k])@) ==> exists|i: int|
            0 <= i < kept.len() && kept[i] == k
}

/// The places of the embedded names that begin with `path`, in order.
pub fn list_icons(path: &str, names: &Vec<String>) -> (kept: Vec<usize>)
    ensures
        lists_below(path@, names@, kept@),
{
    let mut kept: Vec<usize> = Vec::new();
    let mut n: usize = 0;
    while n < names.len()
        invariant
            n <= names@.len(),
            forall|i: int, j: int| 0 <= i < j < kept@.len() ==> kept@[i] < kept@[j],
            forall|i: int|
                0 <= i < kept@.len() ==> #[trigger] kept@[i] < n && path@.is_prefix_of(
                    names@[kept@[i] as int]@,
                ),
            forall|k: int|
                0 <= k < n && path@.is_prefix_of((#[trigger] names@[k])@) ==> exists|i: int|
                    0 <= i < kept@.len() && kept@[i] == k,
        decreases names@.len() - n,
    {
        let ghost earlier = kept@;
        let below = text::starts_with(names[n].as_str(), path);
        if below {
            kept.push(n);
        }
        proof {
            assert forall|k: int|
                0 <= k < n + 1 && path@.is_prefix_of((#[trigger] names@[k])@) implies exists|
                i: int,
            |
                0 <= i < kept@.len() && kept@[i] == k by {
                if k < n {
                    let i = choose|i: int| 0 <= i < earlier.len() && earlier[i] == k;
                    assert(kept@[i] == k);
                } else {
                    assert(kept@[earlier.len() as int] == k);
                }
            }
        }
        n = n + 1;
    }
    kept
}

/// The windowed build is the stable one: it logs to the stable log and its
/// window carries the plain name; the other says that it is for development.
pub proof fn law_builds_tell_themselves_apart(
    windowed: bool,
    channel: &'static str,
    parts: (&'static str, String),
    title: &'static str,
)
    requires
        call_ensures(log_channel, (windowed,), channel),
        call_ensures(log_file_parts, (windowed,), parts),
        call_ensures(window_title, (windowed,), title),
    ensures
        windowed ==> channel@ == "rift-stable"@ && title@ == "rift"@,
        !windowed ==> channel@ == "rift-dev"@ && title@ == "rift (dev)"@,
        parts.0@ == "rift"@,
        parts.1@ == channel@ + ".log"@,
{
}

/// The log goes to the file only where one was asked for and opened.
pub proof fn law_log_falls_back_to_the_console(
    target: LogTarget,
    file_opened: bool,
    sink: LogTarget,
)
    requires
        call_ensures(log_sink, (target, file_opened), sink),
    ensures
        sink is File <==> target is File && file_opened,
{
}

/// rift serves what stands below its own directory, and the toolkit the rest.
pub proof fn law_own_icons_are_served_by_prefix(path: &str, route: AssetRoute)
    requires
        call_ensures(asset_route, (path,), route),
    ensures
        route is FileIcons <==> exists|rest: Seq<char>| path@ == #[trigger] ("file_icons/"@ + rest),
{
    let prefix = "file_icons/"@;
    if prefix.is_prefix_of(path@) {
        let rest = path@.skip(prefix.len() as int);
        assert(path@ =~= prefix + rest);
    }
    if exists|rest: Seq<char>| path@ == #[trigger] (prefix + rest) {
        let rest = choose|rest: Seq<char>| path@ == #[trigger] (prefix + rest);
        assert(path@.take(prefix.len() as int) =~= prefix);
    }
}

/// The listing holds the places of the names that begin with the path, each
/// once and in order, and no others.
pub proof fn law_listing_keeps_what_is_below(path: &str, names: &Vec<String>, kept: Vec<usize>)
    requires
        call_ensures(list_icons, (path, names), kept),
    ensures
        forall|i: int, j: int| 0 <= i < j < kept@.len() ==> kept@[i] < kept@[j],
        forall|i: int| 0 <= i < kept@.len() ==> #[trigger] kept@[i] < names@.len(),
        forall|k: int|
            0 <= k < names@.len() ==> (kept@.contains(k as usize) <==> path@.len() <= (
            #[trigger] names@[k])@.len() && names@[k]@.take(path@.len() as int) == path@),
{
    assert forall|k: int| 0 <= k < names@.len() implies (kept@.contains(k as usize)
        <==> path@.len() <= (#[trigger] names@[k])@.len() && names@[k]@.take(path@.len() as int)
        == path@) by {
        if kept@.contains(k as usize) {
            let i = choose|i: int| 0 <= i < kept@.len() && kept@[i] == k as usize;
            assert(kept@[i] < names@.len());
            assert(names@.len() <= usize::MAX) by {
                assert(names.len() == names@.len());
            }
            assert(path@.is_prefix_of(names@[k]@));
            assert(names@[k]@.take(path@.len() as int) =~= path@);
        }
        if path@.len() <= names@[k]@.len() && names@[k]@.take(path@.len() as int) == path@ {
            assert(path@.is_prefix_of(names@[k]@)) by {
                assert(path@ =~= names@[k]@.subrange(0, path@.len() as int));
            }
            let i = choose|i: int| 0 <= i < kept@.len() && kept@[i] == k;
            assert(kept@[i] == k as usize);
        }
    }
}

} // verus!
