use vstd::prelude::*;
use vstd::string::*;
use crate::render::digits;

verus! {

/// How one character is written inside a TOON cell: backslash, comma and
/// newline are escaped with a backslash.
pub open spec fn escaped_char(c: char) -> Seq<char> {
    if c == '\\' {
        "\\\\"@
    } else if c == ',' {
        "\\,"@
    } else if c == '\n' {
        "\\n"@
    } else {
        seq![c]
    }
}

pub open spec fn escape_text(s: Seq<char>) -> Seq<char>
    decreases s.len(),
{
    if s.len() == 0 {
        Seq::empty()
    } else {
        escape_text(s.drop_last()) + escaped_char(s.last())
    }
}

/// The parts separated by `sep`.
pub open spec fn joined(parts: Seq<Seq<char>>, sep: Seq<char>) -> Seq<char>
    decreases parts.len(),
{
    if parts.len() == 0 {
        Seq::empty()
    } else if parts.len() == 1 {
        parts[0]
    } else {
        joined(parts.drop_last(), sep) + sep + parts.last()
    }
}

/// The lines of the given rows: each indented by two spaces, its cells
/// escaped and separated by commas.
pub open spec fn rows_text(rows: Seq<Seq<Seq<char>>>) -> Seq<char>
    decreases rows.len(),
{
    if rows.len() == 0 {
        Seq::empty()
    } else {
        rows_text(rows.drop_last()) + "  "@ + joined(rows.last().map_values(|v: Seq<char>| escape_text(v)), ","@) + "\n"@
    }
}

/// A section: its header `name[count]{fields}:` and its rows.
pub open spec fn section_text(name: Seq<char>, fields: Seq<Seq<char>>, rows: Seq<Seq<Seq<char>>>) -> Seq<char> {
    name + "["@ + digits(rows.len(), 10) + "]{"@ + joined(fields, ","@) + "}:\n"@ + rows_text(rows)
}

pub open spec fn cells(row: Vec<String>) -> Seq<Seq<char>> {
    row@.map_values(|s: String| s@)
}

pub open spec fn table(rows: Seq<Vec<String>>) -> Seq<Seq<Seq<char>>> {
    rows.map_values(|r: Vec<String>| cells(r))
}

/// Escapes a value for a TOON cell.
pub fn escape_toon(v: &str) -> (r: String)
    ensures
        r@ == escape_text(v@),
{
    let n = v.unicode_len();
    let mut out = String::new();
    let mut i: usize = 0;
    while i < n
        invariant
            n == v@.len(),
            i <= n,
            out@ == escape_text(v@.subrange(0, i as int)),
        decreases n - i,
    {
        let c = v.get_char(i);
        proof {
            let pre = v@.subrange(0, i as int + 1);
            assert(pre.drop_last() =~= v@.subrange(0, i as int));
            assert(pre.last() == c);
        }
        if c == '\\' {
            out.append("\\\\");
        } else if c == ',' {
            out.append("\\,");
        } else if c == '\n' {
            out.append("\\n");
        } else {
            let one = v.substring_char(i, i + 1);
            assert(one@ =~= seq![c]);
            out.append(one);
        }
        i = i + 1;
    }
    assert(v@.subrange(0, n as int) =~= v@);
    out
}

fn join_fields(fields: &[&str]) -> (r: String)
    ensures
        r@ == joined(fields@.map_values(|f: &str| f@), ","@),
{
    let ghost parts = fields@.map_values(|f: &str| f@);
    let mut out = String::new();
    let mut i: usize = 0;
    while i < fields.len()
        invariant
            i <= fields@.len(),
            parts == fields@.map_values(|f: &str| f@),
            out@ == joined(parts.subrange(0, i as int), ","@),
        decreases fields@.len() - i,
    {
        proof {
            let pre = parts.subrange(0, i as int + 1);
            assert(pre.drop_last() =~= parts.subrange(0, i as int));
        }
        if i > 0 {
            out.append(",");
        }
        out.append(fields[i]);
        proof {
            if i == 0 {
                assert(out@ =~= parts.subrange(0, 1)[0]);
            }
        }
        i = i + 1;
    }
    assert(parts.subrange(0, fields@.len() as int) =~= parts);
    out
}

fn join_escaped(row: &Vec<String>) -> (r: String)
    ensures
        r@ == joined(cells(*row).map_values(|v: Seq<char>| escape_text(v)), ","@),
{
    let ghost parts = cells(*row).map_values(|v: Seq<char>| escape_text(v));
    let mut out = String::new();
    let mut i: usize = 0;
    while i < row.len()
        invariant
            i <= row@.len(),
            parts == cells(*row).map_values(|v: Seq<char>| escape_text(v)),
            out@ == joined(parts.subrange(0, i as int), ","@),
        decreases row@.len() - i,
    {
        proof {
            let pre = parts.subrange(0, i as int + 1);
            assert(pre.drop_last() =~= parts.subrange(0, i as int));
        }
        if i > 0 {
            out.append(",");
        }
        let e = escape_toon(row[i].as_str());
        out.append(e.as_str());
        proof {
            if i == 0 {
                assert(out@ =~= parts.subrange(0, 1)[0]);
            }
        }
        i = i + 1;
    }
    assert(parts.subrange(0, row@.len() as int) =~= parts);
    out
}

/// Builds output in TOON, a compact table format: named sections, each a
/// header line and one line per row.
pub struct ToonBuilder {
    pub buf: String,
}

impl ToonBuilder {
    pub fn new() -> (r: ToonBuilder)
        ensures
            r.buf@ == Seq::<char>::empty(),
    {
        ToonBuilder { buf: String::new() }
    }

    /// Appends a section, set off from what precedes it by a blank line;
    /// a section without rows is left out.
    pub fn section(&mut self, name: &str, fields: &[&str], rows: Vec<Vec<String>>)
        requires
            rows@.len() <= u64::MAX,
        ensures
            rows@.len() == 0 ==> final(self).buf@ == old(self).buf@,
            rows@.len() > 0 ==> final(self).buf@ == old(self).buf@ + (if old(self).buf@.len() > 0 {
                "\n"@
            } else {
                Seq::<char>::empty()
            }) + section_text(name@, fields@.map_values(|f: &str| f@), table(rows@)),
    {
        if rows.len() == 0 {
            return;
        }
        let ghost start = self.buf@;
        if self.buf.as_str().unicode_len() > 0 {
            self.buf.append("\n");
        }
        let ghost lead = self.buf@;
        self.buf.append(name);
        self.buf.append("[");
        let count = crate::render::decimal(rows.len() as u64);
        self.buf.append(count.as_str());
        self.buf.append("]{");
        let f = join_fields(fields);
        self.buf.append(f.as_str());
        self.buf.append("}:\n");
        let ghost head = self.buf@;
        let ghost t = table(rows@);
        let mut i: usize = 0;
        while i < rows.len()
            invariant
                i <= rows@.len(),
                t == table(rows@),
                self.buf@ == head + rows_text(t.subrange(0, i as int)),
            decreases rows@.len() - i,
        {
            proof {
                let pre = t.subrange(0, i as int + 1);
                assert(pre.drop_last() =~= t.subrange(0, i as int));
                assert(pre.last() == cells(rows@[i as int]));
            }
            self.buf.append("  ");
            let line = join_escaped(&rows[i]);
            self.buf.append(line.as_str());
            self.buf.append("\n");
            i = i + 1;
        }
        assert(t.subrange(0, rows@.len() as int) =~= t);
        assert(self.buf@ =~= lead + section_text(name@, fields@.map_values(|f: &str| f@), table(rows@)));
    }

    pub fn finish(self) -> (r: String)
        ensures
            r == self.buf,
    {
        self.buf
    }
}

} // verus!
