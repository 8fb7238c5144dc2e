use vstd::prelude::*;

use crate::text::{
    chars_of, first_at, index_of, lemma_first_at_bounds, lemma_split_newlines_len,
    lemma_trimmed_head, lines_of, pattern_matches, split_newlines, string_from_chars, strip_cr,
    trim_white_space, trimmed,
};

verus! {

/// What one parsed line holds, as character sequences.
pub struct LineModel {
    pub raw: Seq<char>,
    pub ip: Option<Seq<char>>,
    pub hosts: Option<Seq<char>>,
    pub comment: Option<Seq<char>>,
}

/// The record that parsing `line` gives.
///
/// Blank lines carry nothing; a line whose trimmed text starts with `#` is a comment as a
/// whole. Otherwise the text before the first `#` is split at single spaces: the first
/// piece is the address, the second (if any) the host name, and the text after that `#`
/// is the comment.
pub open spec fn line_model(line: Seq<char>) -> LineModel {
    let t = trimmed(line);
    if t.len() == 0 {
        LineModel { raw: line, ip: None, hosts: None, comment: None }
    } else if t[0] == '#' {
        LineModel { raw: line, ip: None, hosts: None, comment: Some(t) }
    } else {
        let h = first_at(t, '#', 0);
        let data = t.subrange(0, h);
        let p = first_at(data, ' ', 0);
        LineModel {
            raw: line,
            ip: Some(data.subrange(0, p)),
            hosts: if p < data.len() {
                Some(data.subrange(p + 1, first_at(data, ' ', p + 1)))
            } else {
                None
            },
            comment: if h < t.len() {
                Some(t.subrange(h + 1, t.len() as int))
            } else {
                None
            },
        }
    }
}

/// Parsing keeps the line's text exactly as it was given.
pub proof fn lemma_raw_kept(line: Seq<char>)
    ensures
        line_model(line).raw == line,
{
}

/// Parsing the text of a record again gives the same record.
pub proof fn lemma_reparse_raw(line: Seq<char>)
    ensures
        line_model(line_model(line).raw) == line_model(line),
{
}

/// A record has an address exactly when the trimmed line is neither empty nor a comment;
/// the address is then not empty. A record without an address has no host name either,
/// and a blank line has no comment.
pub proof fn lemma_address_present(line: Seq<char>)
    ensures
        line_model(line).ip is Some <==> (trimmed(line).len() > 0 && trimmed(line)[0] != '#'),
        line_model(line).ip matches Some(ip) ==> ip.len() > 0,
        line_model(line).ip is None ==> line_model(line).hosts is None,
        trimmed(line).len() == 0 ==> line_model(line).comment is None,
{
    let t = trimmed(line);
    lemma_trimmed_head(line);
    if t.len() > 0 && t[0] != '#' {
        let h = first_at(t, '#', 0);
        lemma_first_at_bounds(t, '#', 1);
        assert(h > 0);
        let data = t.subrange(0, h);
        assert(data[0] == t[0]);
        lemma_first_at_bounds(data, ' ', 1);
        assert(first_at(data, ' ', 0) > 0);
    }
}

/// One line of a hosts file.
pub struct HostsFileLine {
    pub raw: String,
    pub ip: Option<String>,
    pub hosts: Option<String>,
    pub comment: Option<String>,
}

impl View for HostsFileLine {
    type V = LineModel;

    open spec fn view(&self) -> LineModel {
        LineModel {
            raw: self.raw@,
            ip: self.ip.deep_view(),
            hosts: self.hosts.deep_view(),
            comment: self.comment.deep_view(),
        }
    }
}

impl HostsFileLine {
    /// Parses one line.
    pub fn from_string(line: &str) -> (r: HostsFileLine)
        ensures
            r@ == line_model(line@),
    {
        let raw = String::from_str(line);
        let t = trim_white_space(line);
        let cs = chars_of(t);
        let n = cs.len();
        if n == 0 {
            return HostsFileLine::from_raw(raw);
        }
        if pattern_matches("^#.*", t) {
            return HostsFileLine::from_comment(raw, String::from_str(t));
        }
        assert(cs@.subrange(0, n as int) =~= t@);
        let h = index_of(&cs, '#', 0, n);
        let comment = if h < n {
            Some(String::from_str(t.substring_char(h + 1, n)))
        } else {
            None
        };
        assert(cs@.subrange(0, h as int) =~= t@.subrange(0, h as int));
        let p = index_of(&cs, ' ', 0, h);
        let ghost data = t@.subrange(0, h as int);
        let ip = Some(String::from_str(t.substring_char(0, p)));
        assert(data.subrange(0, p as int) =~= t@.subrange(0, p as int));
        let hosts = if p < h {
            let q = index_of(&cs, ' ', p + 1, h);
            assert(data.subrange(p + 1, q as int) =~= t@.subrange(p + 1, q as int));
            Some(String::from_str(t.substring_char(p + 1, q)))
        } else {
            None
        };
        let r = HostsFileLine { raw, ip, hosts, comment };
        assert(r@ == line_model(line@));
        r
    }

    /// A blank line.
    pub fn from_empty() -> (r: HostsFileLine)
        ensures
            r@.raw.len() == 0,
            r@.ip is None,
            r@.hosts is None,
            r@.comment is None,
    {
        HostsFileLine { raw: String::new(), ip: None, hosts: None, comment: None }
    }

    /// A line that carries nothing but its text.
    pub fn from_raw(raw: String) -> (r: HostsFileLine)
        ensures
            r@.raw == raw@,
            r@.ip is None,
            r@.hosts is None,
            r@.comment is None,
    {
        HostsFileLine { raw, ip: None, hosts: None, comment: None }
    }

    /// A line that holds a comment only.
    pub fn from_comment(raw: String, comment: String) -> (r: HostsFileLine)
        ensures
            r@.raw == raw@,
            r@.ip is None,
            r@.hosts is None,
            r@.comment == Some(comment@),
    {
        HostsFileLine { raw, ip: None, hosts: None, comment: Some(comment) }
    }

    /// Whether the line maps an address to hosts.
    pub fn contains_host(&self) -> (r: bool)
        ensures
            r == self.ip.is_some(),
    {
        match &self.ip {
            Some(_) => true,
            None => false,
        }
    }

    /// The line's original text.
    pub fn to_line_string(&self) -> (r: String)
        ensures
            r@ == self.raw@,
    {
        self.raw.clone()
    }
}

/// A hosts file: one record per line, in order.
pub struct HostsFile {
    pub entries: Vec<HostsFileLine>,
}

impl View for HostsFile {
    type V = Seq<LineModel>;

    open spec fn view(&self) -> Seq<LineModel> {
        self.entries@.map_values(|l: HostsFileLine| l@)
    }
}

/// The records that parsing the lines of `content` gives.
pub open spec fn file_model(content: Seq<char>) -> Seq<LineModel> {
    lines_of(content).map_values(|l: Seq<char>| line_model(l))
}

impl HostsFile {
    /// Parses each line of `s`.
    pub fn from_string(s: &str) -> (r: HostsFile)
        ensures
            r@ == file_model(s@),
            r.entries.len() == lines_of(s@).len(),
    {
        let cs = chars_of(s);
        let n = cs.len();
        let mut entries: Vec<HostsFileLine> = Vec::new();
        let mut cur: Vec<char> = Vec::new();
        let ghost mut pieces: Seq<Seq<char>> = Seq::empty();
        let mut i: usize = 0;
        assert(s@.subrange(0, 0) =~= Seq::<char>::empty());
        while i < n
            invariant
                i <= n,
                n == cs.len(),
                cs@ == s@,
                split_newlines(s@.subrange(0, i as int)) == pieces.push(cur@),
                entries.len() == pieces.len(),
                forall|k: int|
                    0 <= k < pieces.len() ==> #[trigger] entries@[k]@ == line_model(
                        strip_cr(pieces[k]),
                    ),
            decreases n - i,
        {
            let c = cs[i];
            let ghost prev = s@.subrange(0, i as int);
            assert(s@.subrange(0, i + 1).drop_last() =~= prev);
            if c == '\n' {
                let ghost whole = cur@;
                let k = cur.len();
                if k > 0 && cur[k - 1] == '\r' {
                    cur.pop();
                }
                assert(cur@ == strip_cr(whole));
                let line = string_from_chars(&cur);
                let rec = HostsFileLine::from_string(line.as_str());
                entries.push(rec);
                proof {
                    pieces = pieces.push(whole);
                }
                cur = Vec::new();
                assert(split_newlines(s@.subrange(0, i + 1)) =~= pieces.push(cur@));
            } else {
                cur.push(c);
                assert(split_newlines(s@.subrange(0, i + 1)) =~= pieces.push(cur@));
            }
            i = i + 1;
        }
        assert(s@.subrange(0, n as int) =~= s@);
        let ghost p = split_newlines(s@);
        proof {
            lemma_split_newlines_len(s@);
        }
        assert(p.drop_last() =~= pieces);
        assert(p.last() == cur@);
        if cur.len() > 0 {
            let line = string_from_chars(&cur);
            let rec = HostsFileLine::from_string(line.as_str());
            entries.push(rec);
        }
        let r = HostsFile { entries };
        assert(r@ =~= file_model(s@));
        r
    }
}

} // verus!
