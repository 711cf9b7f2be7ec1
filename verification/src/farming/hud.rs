//! The tool strip of the homestead HUD.

use vstd::prelude::*;

use crate::text::joined;

use super::tools::{tool_hotkey, tool_name, HomesteadTool};

verus! {

/// Every tool, in hotkey order.
pub open spec fn all_tools() -> Seq<HomesteadTool> {
    seq![HomesteadTool::Hoe, HomesteadTool::WateringCan, HomesteadTool::Seeds, HomesteadTool::Hand]
}

/// A tool's entry on the strip: hotkey and name, bracketed when equipped.
pub open spec fn tool_entry(tool: HomesteadTool, selected: HomesteadTool) -> Seq<char> {
    if tool == selected {
        "["@ + tool_hotkey(tool) + " "@ + tool_name(tool) + "]"@
    } else {
        tool_hotkey(tool) + " "@ + tool_name(tool)
    }
}

pub open spec fn hud_separator() -> Seq<char> {
    "  ·  "@
}

/// The strip: every tool's entry, joined by a dot.
pub fn hud_text(selected: HomesteadTool) -> (text: String)
    ensures
        text@ == joined(all_tools().map_values(|t: HomesteadTool| tool_entry(t, selected)), hud_separator()),
{
    let tools = HomesteadTool::ALL;
    let ghost entries = all_tools().map_values(|t: HomesteadTool| tool_entry(t, selected));
    let mut text = String::new();
    let mut i: usize = 0;
    proof {
        assert(entries.take(0) =~= Seq::<Seq<char>>::empty());
    }
    while i < 4
        invariant
            i <= 4,
            tools@ == all_tools(),
            entries == all_tools().map_values(|t: HomesteadTool| tool_entry(t, selected)),
            text@ == joined(entries.take(i as int), hud_separator()),
        decreases 4 - i,
    {
        let tool = tools[i];
        let ghost before = text@;
        if i > 0 {
            text.append("  ·  ");
        }
        let ghost prefix = text@;
        if tool == selected {
            text.append("[");
        }
        text.append(tool.hotkey());
        text.append(" ");
        text.append(tool.label());
        if tool == selected {
            text.append("]");
        }
        proof {
            assert(text@ =~= prefix + tool_entry(tool, selected));
            let next = entries.take(i + 1);
            assert(next.drop_last() =~= entries.take(i as int));
            assert(next.last() == tool_entry(tool, selected));
            if i == 0 {
                assert(next.len() == 1);
                assert(text@ =~= joined(next, hud_separator()));
            } else {
                assert(text@ =~= joined(next, hud_separator()));
            }
        }
        i += 1;
    }
    proof {
        assert(entries.take(4) =~= entries);
    }
    text
}

} // verus!
