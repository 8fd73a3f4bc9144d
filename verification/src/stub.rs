//! Machine-written text the host drops into the workspace: the
//! column-declaration block at the head of the user-editable stub source,
//! and the initialization script handed to the external viewer.

use vstd::prelude::*;

verus! {

use crate::schema::Column;
use crate::text::{pad_end_to, push_padded_end};

/// The comment line naming the fields of each column declaration.
pub open spec fn stub_comment_line() -> Seq<char> {
    "    /*     "@ + pad_end_to("column name"@, 16) + "  "@ + pad_end_to("type"@, 10) + "  "@
        + pad_end_to("grid width"@, 10) + " */\\\n"@
}

/// One column declaration of the stub's block: the input column's name,
/// its type keyword, and the automatic width policy.
pub open spec fn stub_column_line(c: Column) -> Seq<char> {
    "    COLUMN("@ + pad_end_to(c.name@, 16) + ", "@ + pad_end_to(c.cell_type.spec_upper_str(), 10)
        + ", "@ + pad_end_to("GRID_AUTO"@, 10) + ") \\\n"@
}

pub open spec fn stub_column_lines(cols: Seq<Column>, i: int) -> Seq<char>
    decreases cols.len() - i when 0 <= i <= cols.len()
{
    if i >= cols.len() {
        Seq::empty()
    } else {
        stub_column_line(cols[i]) + stub_column_lines(cols, i + 1)
    }
}

/// The whole machine-written block: the list-macro definition, the
/// comment line, one declaration per input column, and a blank line; the
/// user-authored body follows it and is never touched.
pub open spec fn stub_header_text(cols: Seq<Column>) -> Seq<char> {
    "#define COLUMN_LIST \\\n"@ + stub_comment_line() + stub_column_lines(cols, 0) + "\n"@
}

/// Write the stub's machine-written column-declaration block for the
/// given input column set.
pub fn generate_stub_header(cols: &Vec<Column>) -> (r: String)
    ensures
        r@ == stub_header_text(cols@),
{
    let mut out = String::new();
    out.append("#define COLUMN_LIST \\\n");
    out.append("    /*     ");
    push_padded_end(&mut out, "column name", 16);
    out.append("  ");
    push_padded_end(&mut out, "type", 10);
    out.append("  ");
    push_padded_end(&mut out, "grid width", 10);
    out.append(" */\\\n");
    proof {
        assert(out@ =~= "#define COLUMN_LIST \\\n"@ + stub_comment_line());
    }
    let ghost head = "#define COLUMN_LIST \\\n"@ + stub_comment_line();
    let mut i: usize = 0;
    while i < cols.len()
        invariant
            i <= cols@.len(),
            out@ + stub_column_lines(cols@, i as int) == head + stub_column_lines(cols@, 0),
        decreases cols@.len() - i,
    {
        let ghost pre = out@;
        out.append("    COLUMN(");
        push_padded_end(&mut out, cols[i].name.as_str(), 16);
        out.append(", ");
        push_padded_end(&mut out, cols[i].cell_type.upper_str(), 10);
        out.append(", ");
        push_padded_end(&mut out, "GRID_AUTO", 10);
        out.append(") \\\n");
        proof {
            assert(out@ =~= pre + stub_column_line(cols@[i as int]));
            assert(stub_column_lines(cols@, i as int) == stub_column_line(cols@[i as int])
                + stub_column_lines(cols@, i + 1));
            assert(pre + stub_column_line(cols@[i as int]) + stub_column_lines(cols@, i + 1) =~= pre
                + (stub_column_line(cols@[i as int]) + stub_column_lines(cols@, i + 1)));
        }
        i = i + 1;
    }
    proof {
        assert(stub_column_lines(cols@, cols@.len() as int) == Seq::<char>::empty());
        assert(out@ + Seq::<char>::empty() =~= out@);
    }
    out.append("\n");
    proof {
        assert(out@ =~= stub_header_text(cols@));
    }
    out
}

/// The initialization script for the external viewer: it opens the
/// rendered output, the log and the stub source side by side and re-reads
/// files the host rewrites behind it.
pub open spec fn viewer_script_text(output: Seq<char>, log: Seq<char>, script: Seq<char>) -> Seq<
    char,
> {
    "set backupcopy=yes\nset autoread\nset splitbelow\nedit "@ + output + "\nsplit "@ + log
        + "\nvsplit "@ + script + "\n"@
}

/// Write the viewer-initialization script for the three workspace paths.
pub fn generate_viewer_script(output: &str, log: &str, script: &str) -> (r: String)
    ensures
        r@ == viewer_script_text(output@, log@, script@),
{
    let mut out = String::new();
    out.append("set backupcopy=yes\nset autoread\nset splitbelow\nedit ");
    out.append(output);
    out.append("\nsplit ");
    out.append(log);
    out.append("\nvsplit ");
    out.append(script);
    out.append("\n");
    proof {
        assert(out@ =~= viewer_script_text(output@, log@, script@));
    }
    out
}

} // verus!
