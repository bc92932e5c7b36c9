//! The CJK font that the window falls back to.
use vstd::prelude::*;
use crate::chars::{chars_of, push_str, string_from_chars};

verus! {

/// The name under which the CJK font is registered.
pub const CJK_FONT_KEY: &'static str = "speaktype-cjk";

/// The font files looked for in the Windows font folder, in order.
pub const WINDOWS_CJK_FONT_FILES: [&'static str; 7] = [
    "msjh.ttc",
    "msyh.ttc",
    "mingliu.ttc",
    "simsun.ttc",
    "meiryo.ttc",
    "malgun.ttf",
    "NotoSansCJK-Regular.ttc",
];

/// `items` joined with `, ` between them.
pub open spec fn comma_joined(items: Seq<Seq<char>>) -> Seq<char>
    decreases items.len(),
{
    if items.len() == 0 {
        Seq::<char>::empty()
    } else if items.len() == 1 {
        items[0]
    } else {
        comma_joined(items.drop_last()) + ", "@ + items.last()
    }
}

/// The warning shown when none of the `checked` font paths could be read.
pub fn missing_font_message(checked: &[String]) -> (r: String)
    ensures
        r@ == "找不到可用的中文字型，介面中文可能無法顯示。已檢查："@ + comma_joined(
            checked@.map_values(|s: String| s@),
        ),
{
    let ghost all = checked@.map_values(|s: String| s@);
    let mut out: Vec<char> = Vec::new();
    let mut i: usize = 0;
    while i < checked.len()
        invariant
            i <= checked@.len(),
            all == checked@.map_values(|s: String| s@),
            out@ == comma_joined(all.take(i as int)),
        decreases checked@.len() - i,
    {
        proof {
            assert(all.take(i + 1).drop_last() =~= all.take(i as int));
        }
        if i > 0 {
            push_str(&mut out, ", ");
        }
        push_str(&mut out, checked[i].as_str());
        proof {
            if i == 0 {
                assert(out@ =~= all.take(1)[0]);
            }
        }
        i += 1;
    }
    proof {
        assert(all.take(i as int) =~= all);
    }
    let mut m = chars_of("找不到可用的中文字型，介面中文可能無法顯示。已檢查：");
    push_str(&mut m, string_from_chars(out.as_slice()).as_str());
    string_from_chars(m.as_slice())
}

} // verus!
