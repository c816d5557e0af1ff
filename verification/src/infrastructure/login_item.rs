//! The launchd agent that starts caffeine at login.
use vstd::prelude::*;

verus! {

/// The plist text before the executable's path.
pub open spec fn plist_head() -> Seq<char> {
    r#"<?xml version="1.0" encoding="UTF-8"?>
<!DOCTYPE plist PUBLIC "-//Apple//DTD PLIST 1.0//EN" "http://www.apple.com/DTDs/PropertyList-1.0.dtd">
<plist version="1.0">
<dict>
    <key>Label</key>
    <string>com.juliocanizalez.caffeine</string>
    <key>ProgramArguments</key>
    <array>
        <string>"#@
}

/// The plist text after the executable's path.
pub open spec fn plist_tail() -> Seq<char> {
    "</string>\n    </array>\n"@ + "    <key>RunAtLoad</key>\n    <false/>\n"@
        + "    <key>KeepAlive</key>\n    <false/>\n"@ + "</dict>\n</plist>\n"@
}

/// The launchd plist that runs `exe_path` at login (not at load) and does not
/// keep it alive.
pub fn plist_content(exe_path: &str) -> (r: String)
    ensures
        r@ == plist_head() + exe_path@ + plist_tail(),
{
    let mut out = String::from_str(
        r#"<?xml version="1.0" encoding="UTF-8"?>
<!DOCTYPE plist PUBLIC "-//Apple//DTD PLIST 1.0//EN" "http://www.apple.com/DTDs/PropertyList-1.0.dtd">
<plist version="1.0">
<dict>
    <key>Label</key>
    <string>com.juliocanizalez.caffeine</string>
    <key>ProgramArguments</key>
    <array>
        <string>"#,
    );
    out.append(exe_path);
    out.append("</string>\n    </array>\n");
    out.append("    <key>RunAtLoad</key>\n    <false/>\n");
    out.append("    <key>KeepAlive</key>\n    <false/>\n");
    out.append("</dict>\n</plist>\n");
    assert(out@ =~= plist_head() + exe_path@ + plist_tail());
    out
}

/// Whatever the executable's path, the agent is neither run at load nor kept
/// alive: after the path, the plist holds `RunAtLoad` `false` and then
/// `KeepAlive` `false`, and it ends with the closing tags. Returns where the
/// two keys start.
pub proof fn lemma_plist_not_kept_alive(exe: Seq<char>) -> (r: (int, int))
    ensures
        ({
            let p = plist_head() + exe + plist_tail();
            let run = "    <key>RunAtLoad</key>\n    <false/>\n"@;
            let keep = "    <key>KeepAlive</key>\n    <false/>\n"@;
            let end = "</dict>\n</plist>\n"@;
            &&& plist_head().len() + exe.len() <= r.0
            &&& r.0 + run.len() <= r.1
            &&& p.subrange(r.0, r.0 + run.len() as int) == run
            &&& p.subrange(r.1, r.1 + keep.len() as int) == keep
            &&& r.1 + keep.len() + end.len() == p.len()
            &&& p.subrange(r.1 + keep.len() as int, p.len() as int) == end
            &&& p.subrange(0, plist_head().len() + exe.len() as int) == plist_head() + exe
        }),
{
    let a = "</string>\n    </array>\n"@;
    let run = "    <key>RunAtLoad</key>\n    <false/>\n"@;
    let keep = "    <key>KeepAlive</key>\n    <false/>\n"@;
    let end = "</dict>\n</plist>\n"@;
    let pre = plist_head() + exe;
    let p = plist_head() + exe + plist_tail();
    assert(p =~= pre + a + run + keep + end);
    let i: int = (pre.len() + a.len()) as int;
    let j: int = i + run.len();
    assert(p.subrange(i, i + run.len()) =~= run);
    assert(p.subrange(j, j + keep.len()) =~= keep);
    assert(p.subrange(j + keep.len(), p.len() as int) =~= end);
    assert(p.subrange(0, pre.len() as int) =~= pre);
    (i, j)
}

} // verus!
