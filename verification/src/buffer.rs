//! The frame assembler: it collects the lines of one document of the
//! sampler's output and hands the document over as one text.

use vstd::prelude::*;
use vstd::string::*;
use crate::text::{str_equals, str_starts_with};

verus! {

/// The line that ends a document.
pub open spec fn end_marker() -> Seq<char> {
    "</plist>"@
}

/// How many of the most recent lines are searched for the defective line.
pub const REPAIR_WINDOW: usize = 10;

/// The text with which the defective line begins.
pub open spec fn defect_marker() -> Seq<char> {
    "<key>idle_ratio</key>"@
}

/// A line is defective when it begins with the marker, character for
/// character.
pub open spec fn is_defective(line: Seq<char>) -> bool {
    defect_marker().is_prefix_of(line)
}

/// What is kept of an incoming line: the first line of a document loses one
/// leading NUL, every other line is kept as it is.
pub open spec fn stored_form(first: bool, line: Seq<char>) -> Seq<char> {
    if first && line.len() > 0 && line[0] == '\0' {
        line.drop_first()
    } else {
        line
    }
}

/// Distance from the end (0 for the last line) of the most recent defective
/// line among the last `window` lines, searched from offset `from` on.
pub open spec fn defect_offset(lines: Seq<Seq<char>>, from: nat, window: nat) -> Option<nat>
    decreases window - from,
{
    if from >= window || from >= lines.len() {
        None
    } else if is_defective(lines[lines.len() - 1 - from]) {
        Some(from)
    } else {
        defect_offset(lines, from + 1, window)
    }
}

/// The lines without the most recent defective line of the last
/// `REPAIR_WINDOW`; unchanged where that window holds none.
pub open spec fn repaired(lines: Seq<Seq<char>>) -> Seq<Seq<char>> {
    match defect_offset(lines, 0, REPAIR_WINDOW as nat) {
        Some(off) => lines.remove(lines.len() - 1 - off),
        None => lines,
    }
}

/// The lines joined by single newlines.
pub open spec fn joined(lines: Seq<Seq<char>>) -> Seq<char>
    decreases lines.len(),
{
    if lines.len() == 0 {
        Seq::empty()
    } else if lines.len() == 1 {
        lines[0]
    } else {
        joined(lines.drop_last()) + seq!['\n'] + lines.last()
    }
}

/// The buffer's content after a whole document `raw` was fed to an empty
/// buffer, every line but the last through `append_line` and the last one
/// through `append_last_line`.
pub open spec fn fed(raw: Seq<Seq<char>>) -> Seq<Seq<char>> {
    repaired(Seq::new(raw.len(), |k: int| stored_form(k == 0 && k + 1 < raw.len(), raw[k])))
}

/// The search finds the defective line at offset `target` when no line
/// between `from` and `target` is defective.
proof fn lemma_defect_offset_found(lines: Seq<Seq<char>>, from: nat, target: nat, window: nat)
    requires
        from <= target < window,
        target < lines.len(),
        is_defective(lines[lines.len() - 1 - target]),
        forall|off: int| from <= off < target ==> !is_defective(#[trigger] lines[lines.len() - 1 - off]),
    ensures
        defect_offset(lines, from, window) == Some(target),
    decreases target - from,
{
    if from < target {
        assert(!is_defective(lines[lines.len() - 1 - from]));
        lemma_defect_offset_found(lines, from + 1, target, window);
    }
}

/// The search finds nothing when no line of the window is defective.
proof fn lemma_defect_offset_none(lines: Seq<Seq<char>>, from: nat, window: nat)
    requires
        forall|off: int|
            from <= off < window && off < lines.len() ==> !is_defective(
                #[trigger] lines[lines.len() - 1 - off],
            ),
    ensures
        defect_offset(lines, from, window) is None,
    decreases window - from,
{
    if from < window && from < lines.len() {
        assert(!is_defective(lines[lines.len() - 1 - from]));
        lemma_defect_offset_none(lines, from + 1, window);
    }
}

/// Repair undoes the insertion of a defective line among the last
/// `REPAIR_WINDOW` lines: where no line after the inserted one is defective,
/// the repaired lines are the lines before the insertion.
pub proof fn lemma_repair_removes_inserted(clean: Seq<Seq<char>>, defect: Seq<char>, at: int)
    requires
        0 <= at <= clean.len(),
        clean.len() - at < REPAIR_WINDOW,
        is_defective(defect),
        forall|j: int| at <= j < clean.len() ==> !is_defective(#[trigger] clean[j]),
    ensures
        repaired(clean.insert(at, defect)) == clean,
{
    let dirty = clean.insert(at, defect);
    let target = (clean.len() - at) as nat;
    assert(dirty[dirty.len() - 1 - target] == defect);
    assert forall|off: int| 0 <= off < target implies !is_defective(
        #[trigger] dirty[dirty.len() - 1 - off],
    ) by {
        assert(dirty[dirty.len() - 1 - off] == clean[clean.len() - 1 - off]);
    }
    lemma_defect_offset_found(dirty, 0, target, REPAIR_WINDOW as nat);
    assert(dirty.remove(at) =~= clean);
}

/// Repair leaves the lines alone when none of the last `REPAIR_WINDOW` is
/// defective, whatever stands further back.
pub proof fn lemma_repair_ignores_older(lines: Seq<Seq<char>>)
    requires
        forall|j: int|
            0 <= j < lines.len() && lines.len() - j <= REPAIR_WINDOW ==> !is_defective(
                #[trigger] lines[j],
            ),
    ensures
        repaired(lines) == lines,
{
    assert forall|off: int| 0 <= off < REPAIR_WINDOW && off < lines.len() implies !is_defective(
        #[trigger] lines[lines.len() - 1 - off],
    ) by {
        let j = lines.len() - 1 - off;
        assert(lines.len() - j <= REPAIR_WINDOW);
    }
    lemma_defect_offset_none(lines, 0, REPAIR_WINDOW as nat);
}

/// A defective line does not begin with NUL.
pub proof fn lemma_defective_not_nul(line: Seq<char>)
    requires
        is_defective(line),
    ensures
        line.len() > 0,
        line[0] != '\0',
{
    reveal_strlit("<key>idle_ratio</key>");
    assert(line[0] == line.subrange(0, defect_marker().len() as int)[0]);
}

/// Framing round trip. Take a document `clean` of at least one line whose
/// first line does not begin with NUL, insert a defective line among its last
/// lines so that it stands within the repair window and no later line is
/// defective, and put a stray NUL before the first line or not. Feeding these
/// lines and handing the document over gives the text of `clean`.
pub proof fn lemma_framing_round_trip(
    clean: Seq<Seq<char>>,
    defect: Seq<char>,
    at: int,
    stray: bool,
)
    requires
        clean.len() >= 1,
        0 <= at <= clean.len(),
        clean.len() - at < REPAIR_WINDOW,
        is_defective(defect),
        forall|j: int| at <= j < clean.len() ==> !is_defective(#[trigger] clean[j]),
        clean[0].len() == 0 || clean[0][0] != '\0',
    ensures
        ({
            let dirty = clean.insert(at, defect);
            let raw = if stray {
                dirty.update(0, seq!['\0'] + dirty[0])
            } else {
                dirty
            };
            joined(fed(raw)) == joined(clean)
        }),
{
    let dirty = clean.insert(at, defect);
    let raw = if stray {
        dirty.update(0, seq!['\0'] + dirty[0])
    } else {
        dirty
    };
    let stored = Seq::new(raw.len(), |k: int| stored_form(k == 0 && k + 1 < raw.len(), raw[k]));
    lemma_defective_not_nul(defect);
    assert(dirty[0] == if at == 0 { defect } else { clean[0] });
    if stray {
        assert((seq!['\0'] + dirty[0]).drop_first() =~= dirty[0]);
    }
    assert(stored =~= dirty);
    lemma_repair_removes_inserted(clean, defect, at);
}

/// A document that was fed without a defective line in the repair window
/// and without a leading NUL is handed over line for line.
pub proof fn lemma_framing_untouched(raw: Seq<Seq<char>>)
    requires
        raw.len() >= 1,
        raw[0].len() == 0 || raw[0][0] != '\0',
        forall|j: int|
            0 <= j < raw.len() && raw.len() - j <= REPAIR_WINDOW ==> !is_defective(#[trigger] raw[j]),
    ensures
        fed(raw) == raw,
{
    let stored = Seq::new(raw.len(), |k: int| stored_form(k == 0 && k + 1 < raw.len(), raw[k]));
    assert(stored =~= raw);
    lemma_repair_ignores_older(raw);
}

/// Line buffer for one document.
pub struct Buffer {
    buffer: Vec<String>,
}

impl View for Buffer {
    type V = Seq<Seq<char>>;

    /// The stored lines, oldest first.
    closed spec fn view(&self) -> Seq<Seq<char>> {
        Seq::new(self.buffer@.len(), |i: int| self.buffer@[i]@)
    }
}

impl Buffer {
    /// An empty buffer.
    pub fn new() -> (r: Self)
        ensures
            r@ == Seq::<Seq<char>>::empty(),
    {
        let r = Self { buffer: Vec::<String>::new() };
        assert(r@ =~= Seq::<Seq<char>>::empty());
        r
    }

    /// Number of stored lines.
    pub fn len(&self) -> (n: usize)
        ensures
            n == self@.len(),
    {
        self.buffer.len()
    }

    /// Stores a line that is not the last of its document.
    pub fn append_line(&mut self, line: String)
        ensures
            final(self)@ == old(self)@.push(stored_form(old(self)@.len() == 0, line@)),
    {
        let n: usize = line.as_str().unicode_len();
        if self.buffer.len() == 0 && n > 0 && line.as_str().get_char(0) == '\0' {
            let kept = String::from_str(line.as_str().substring_char(1, n));
            self.buffer.push(kept);
        } else {
            self.buffer.push(line);
        }
        assert(self@ =~= old(self)@.push(stored_form(old(self)@.len() == 0, line@)));
    }

    /// Stores the last line of a document, then removes the defective line
    /// if one stands among the last `REPAIR_WINDOW` lines.
    pub fn append_last_line(&mut self, line: String)
        ensures
            final(self)@ == repaired(old(self)@.push(line@)),
    {
        self.buffer.push(line);
        let ghost lines = self@;
        assert(lines =~= old(self)@.push(line@));
        let len: usize = self.buffer.len();
        let mut off: usize = 0;
        while off < REPAIR_WINDOW && off < len
            invariant
                len == self.buffer@.len(),
                self@ == lines,
                lines == old(self)@.push(line@),
                off <= len,
                defect_offset(lines, 0, REPAIR_WINDOW as nat) == defect_offset(
                    lines,
                    off as nat,
                    REPAIR_WINDOW as nat,
                ),
            decreases len - off,
        {
            let at: usize = len - 1 - off;
            assert(lines[at as int] == self.buffer@[at as int]@);
            if str_starts_with(self.buffer[at].as_str(), "<key>idle_ratio</key>") {
                assert(is_defective(lines[lines.len() - 1 - off]));
                assert(defect_offset(lines, off as nat, REPAIR_WINDOW as nat) == Some(off as nat));
                self.buffer.remove(at);
                assert(self@ =~= lines.remove(at as int));
                return ;
            }
            off += 1;
        }
    }

    /// Takes the next line of the stream. The end marker completes the
    /// document, which is handed over; any other line is stored.
    pub fn feed(&mut self, line: String) -> (document: Option<String>)
        ensures
            line@ == end_marker() ==> document is Some && document->0@ == joined(
                repaired(old(self)@.push(line@)),
            ) && final(self)@ == Seq::<Seq<char>>::empty(),
            line@ != end_marker() ==> document is None && final(self)@ == old(self)@.push(
                stored_form(old(self)@.len() == 0, line@),
            ),
    {
        if str_equals(line.as_str(), "</plist>") {
            self.append_last_line(line);
            Some(self.finalize())
        } else {
            self.append_line(line);
            None
        }
    }

    /// Feeds one whole document to the empty buffer, the end marker last,
    /// and hands the document over. What is handed over depends on these
    /// lines alone, and the buffer is empty again afterwards: documents
    /// that went through the buffer before leave no trace.
    pub fn assemble(&mut self, lines: &Vec<String>) -> (plist: String)
        requires
            old(self)@.len() == 0,
        ensures
            plist@ == joined(fed(Seq::new(lines@.len(), |k: int| lines@[k]@))),
            final(self)@ == Seq::<Seq<char>>::empty(),
    {
        let ghost raw = Seq::new(lines@.len(), |k: int| lines@[k]@);
        let ghost stored = Seq::new(
            raw.len(),
            |k: int| stored_form(k == 0 && k + 1 < raw.len(), raw[k]),
        );
        assert(self@ =~= Seq::<Seq<char>>::empty());
        let n: usize = lines.len();
        let mut i: usize = 0;
        while i < n
            invariant
                i <= n,
                n == lines@.len(),
                raw == Seq::new(lines@.len(), |k: int| lines@[k]@),
                stored == Seq::new(
                    raw.len(),
                    |k: int| stored_form(k == 0 && k + 1 < raw.len(), raw[k]),
                ),
                i < n ==> self@ == stored.take(i as int),
                i == n ==> self@ == repaired(stored),
            decreases n - i,
        {
            let line = lines[i].clone();
            if i + 1 < n {
                self.append_line(line);
                assert(self@ =~= stored.take(i + 1));
            } else {
                self.append_last_line(line);
                assert(stored.take(i as int).push(raw[i as int]) =~= stored);
            }
            i += 1;
        }
        assert(n == 0 ==> stored =~= Seq::<Seq<char>>::empty());
        self.finalize()
    }

    /// Hands over the document and empties the buffer.
    pub fn finalize(&mut self) -> (plist: String)
        ensures
            plist@ == joined(old(self)@),
            final(self)@ == Seq::<Seq<char>>::empty(),
    {
        let mut plist = String::new();
        let n: usize = self.buffer.len();
        let mut i: usize = 0;
        while i < n
            invariant
                i <= n,
                n == self.buffer@.len(),
                self@ == old(self)@,
                plist@ == joined(self@.take(i as int)),
            decreases n - i,
        {
            if i > 0 {
                plist.append("\n");
            }
            plist.append(self.buffer[i].as_str());
            proof {
                reveal_strlit("\n");
                let next = self@.take(i + 1);
                assert(next.drop_last() =~= self@.take(i as int));
                assert(next.last() == self@[i as int]);
                if i > 0 {
                    assert("\n"@ =~= seq!['\n']);
                } else {
                    assert(joined(self@.take(0)) =~= Seq::<char>::empty());
                    assert(plist@ =~= self@[0]);
                }
            }
            i += 1;
        }
        assert(self@.take(n as int) =~= self@);
        self.buffer.clear();
        assert(self@ =~= Seq::<Seq<char>>::empty());
        plist
    }
}

/// Assembles one whole document from its lines, the end marker last.
pub fn assemble(lines: &Vec<String>) -> (plist: String)
    ensures
        plist@ == joined(fed(Seq::new(lines@.len(), |k: int| lines@[k]@))),
{
    let mut buffer = Buffer::new();
    buffer.assemble(lines)
}

} // verus!
