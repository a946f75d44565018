//! Parsing of `git status --porcelain=v1 -z` output, and the checks on paths handed to git.
use vstd::prelude::*;

use crate::text::{chars_of, concat_str, str_eq, trim, trim_str};

verus! {

/// One changed path of a work tree.
#[derive(Debug)]
pub struct GitWorkspaceChange {
    pub path: String,
    pub status: String,
    pub code: String,
    pub from_path: Option<String>,
}

/// What a git command printed and how it ended.
#[derive(Debug)]
pub struct GitCommandExecutionResult {
    pub stdout: String,
    pub stderr: String,
    pub status: i32,
    pub success: bool,
}

/// The text that lossy UTF-8 decoding makes of the bytes.
pub uninterp spec fn utf8_lossy(b: Seq<u8>) -> Seq<char>;

/// The text the bytes encode, where they are valid UTF-8.
pub uninterp spec fn utf8_text(b: Seq<u8>) -> Option<Seq<char>>;

pub open spec fn all_ascii(b: Seq<u8>) -> bool {
    forall|i: int| 0 <= i < b.len() ==> #[trigger] b[i] < 128
}

/// ASCII bytes as text: each byte is the character of the same code.
pub open spec fn ascii_text(b: Seq<u8>) -> Seq<char> {
    b.map_values(|x: u8| x as char)
}

/// Relies on `String::from_utf8_lossy`: the bytes as text, each invalid sequence replaced;
/// ASCII is valid UTF-8 with one character per byte.
#[verifier::external_body]
fn lossy_text(b: &Vec<u8>) -> (r: String)
    ensures
        r@ == utf8_lossy(b@),
        all_ascii(b@) ==> r@ == ascii_text(b@),
{
    String::from_utf8_lossy(b.as_slice()).to_string()
}

/// Relies on `std::str::from_utf8`: the text, or `None` where the bytes are not UTF-8;
/// ASCII is valid UTF-8 with one character per byte.
#[verifier::external_body]
fn utf8_decode(b: &Vec<u8>) -> (r: Option<String>)
    ensures
        r.is_some() == utf8_text(b@).is_some(),
        r.is_some() ==> r.unwrap()@ == utf8_text(b@).unwrap(),
        all_ascii(b@) ==> r.is_some() && r.unwrap()@ == ascii_text(b@),
{
    std::str::from_utf8(b.as_slice()).ok().map(|s| s.to_string())
}

pub open spec fn classify(code: Seq<char>) -> Seq<char> {
    let x = if code.len() > 0 { code[0] } else { ' ' };
    let y = if code.len() > 1 { code[1] } else { ' ' };
    if code == "??"@ {
        "untracked"@
    } else if code == "DD"@ || code == "AU"@ || code == "UD"@ || code == "UA"@ || code == "DU"@ || code == "AA"@ || code == "UU"@ {
        "unmerged"@
    } else if x == 'U' || y == 'U' {
        "unmerged"@
    } else if x == 'R' || y == 'R' {
        "renamed"@
    } else if x == 'C' || y == 'C' {
        "copied"@
    } else if x == 'D' || y == 'D' {
        "deleted"@
    } else if x == 'A' || y == 'A' {
        "added"@
    } else if x == 'M' || y == 'M' || x == 'T' || y == 'T' {
        "modified"@
    } else {
        "unknown"@
    }
}

/// The status label of a porcelain status code.
pub fn classify_git_status(code: &str) -> (r: String)
    ensures
        r@ == classify(code@),
{
    let v = chars_of(code);
    let x = if v.len() > 0 { v[0] } else { ' ' };
    let y = if v.len() > 1 { v[1] } else { ' ' };
    let label = if str_eq(code, "??") {
        "untracked"
    } else if str_eq(code, "DD") || str_eq(code, "AU") || str_eq(code, "UD") || str_eq(code, "UA")
        || str_eq(code, "DU") || str_eq(code, "AA") || str_eq(code, "UU") {
        "unmerged"
    } else if x == 'U' || y == 'U' {
        "unmerged"
    } else if x == 'R' || y == 'R' {
        "renamed"
    } else if x == 'C' || y == 'C' {
        "copied"
    } else if x == 'D' || y == 'D' {
        "deleted"
    } else if x == 'A' || y == 'A' {
        "added"
    } else if x == 'M' || y == 'M' || x == 'T' || y == 'T' {
        "modified"
    } else {
        "unknown"
    };
    label.to_owned()
}

/// A path as git printed it.
pub fn parse_status_path(path: &Vec<u8>) -> (r: String)
    ensures
        r@ == utf8_lossy(path@),
        all_ascii(path@) ==> r@ == ascii_text(path@),
{
    lossy_text(path)
}

/// One parsed status entry: the path's bytes, the code, and the origin's bytes of a rename or copy.
pub struct ChangeModel {
    pub path: Seq<u8>,
    pub code: Seq<char>,
    pub from: Option<Seq<u8>>,
}

pub open spec fn change_ok(g: GitWorkspaceChange, m: ChangeModel) -> bool {
    &&& g.path@ == utf8_lossy(m.path)
    &&& g.code@ == m.code
    &&& g.status@ == classify(m.code)
    &&& match m.from {
        Some(f) => g.from_path.is_some() && g.from_path.unwrap()@ == utf8_lossy(f),
        None => g.from_path.is_none(),
    }
}

/// The first NUL at or after `c`.
pub open spec fn nul_from(o: Seq<u8>, c: int) -> Option<int>
    decreases o.len() - c,
{
    if c < 0 || c >= o.len() {
        None
    } else if o[c] == 0 {
        Some(c)
    } else {
        nul_from(o, c + 1)
    }
}

proof fn lemma_nul_from(o: Seq<u8>, c: int)
    requires
        0 <= c,
    ensures
        nul_from(o, c) matches Some(e) ==> c <= e < o.len() && o[e] == 0,
    decreases o.len() - c,
{
    if c < o.len() && o[c] != 0 {
        lemma_nul_from(o, c + 1);
    }
}

pub open spec fn entry_msg(entry: Seq<u8>) -> Seq<char> {
    "malformed git status entry: '"@ + utf8_lossy(entry) + "'"@
}

pub open spec fn has_rename(code: Seq<char>) -> bool {
    code.contains('R') || code.contains('C')
}

/// The entries of porcelain output from position `c` on, or the message of the first fault.
pub open spec fn parse_from(o: Seq<u8>, c: int) -> Result<Seq<ChangeModel>, Seq<char>>
    decreases o.len() - c,
{
    if c < 0 || c >= o.len() {
        Ok(Seq::empty())
    } else {
        match nul_from(o, c) {
            None => Err("malformed git status output: missing NUL terminator"@),
            Some(e) => {
                let entry = o.subrange(c, e);
                if e < c || e >= o.len() {
                    Ok(Seq::empty())
                } else if entry.len() == 0 {
                    parse_from(o, e + 1)
                } else if entry.len() < 3 {
                    Err(entry_msg(entry))
                } else {
                    match utf8_text(entry.subrange(0, 2)) {
                        None => Err("malformed git status code in entry '"@ + utf8_lossy(entry) + "'"@),
                        Some(code) => if code == "!!"@ {
                            parse_from(o, e + 1)
                        } else if entry[2] != 32u8 {
                            Err(entry_msg(entry))
                        } else if entry.len() == 3 {
                            Err("malformed git status entry (missing path): '"@ + utf8_lossy(entry) + "'"@)
                        } else if has_rename(code) {
                            match nul_from(o, e + 1) {
                                None => Err("malformed git status output: missing rename/copy source path"@),
                                Some(e2) => if e2 <= e + 1 || e2 >= o.len() {
                                    Err("malformed git status output: empty rename/copy source path"@)
                                } else {
                                    match parse_from(o, e2 + 1) {
                                        Ok(rest) => Ok(seq![ChangeModel { path: entry.subrange(3, entry.len() as int), code, from: Some(o.subrange(e + 1, e2)) }] + rest),
                                        Err(m) => Err(m),
                                    }
                                },
                            }
                        } else {
                            match parse_from(o, e + 1) {
                                Ok(rest) => Ok(seq![ChangeModel { path: entry.subrange(3, entry.len() as int), code, from: None }] + rest),
                                Err(m) => Err(m),
                            }
                        },
                    }
                }
            },
        }
    }
}

pub open spec fn changes_ok(v: Seq<GitWorkspaceChange>, m: Seq<ChangeModel>) -> bool {
    v.len() == m.len() && forall|i: int| 0 <= i < v.len() ==> change_ok(#[trigger] v[i], m[i])
}

fn copy_bytes(o: &[u8], lo: usize, hi: usize) -> (r: Vec<u8>)
    requires
        lo <= hi <= o@.len(),
    ensures
        r@ == o@.subrange(lo as int, hi as int),
{
    let mut r: Vec<u8> = Vec::new();
    let mut i: usize = lo;
    while i < hi
        invariant
            lo <= i <= hi <= o@.len(),
            r@ == o@.subrange(lo as int, i as int),
        decreases hi - i,
    {
        r.push(o[i]);
        i = i + 1;
        assert(r@ =~= o@.subrange(lo as int, i as int));
    }
    r
}

fn find_nul(o: &[u8], c: usize) -> (r: Option<usize>)
    ensures
        r.is_some() == nul_from(o@, c as int).is_some(),
        r.is_some() ==> r.unwrap() as int == nul_from(o@, c as int).unwrap(),
{
    let mut i: usize = c;
    while i < o.len()
        invariant
            c <= i,
            nul_from(o@, c as int) == nul_from(o@, i as int),
        decreases o.len() - i,
    {
        if o[i] == 0 {
            return Some(i);
        }
        i = i + 1;
    }
    None
}

fn quoted(head: &str, entry: &Vec<u8>) -> (r: String)
    ensures
        r@ == head@ + utf8_lossy(entry@) + "'"@,
{
    concat_str(concat_str(head, lossy_text(entry).as_str()).as_str(), "'")
}

/// The entries of `git status --porcelain=v1 -z` output, ignored paths left out; the first
/// malformed entry makes it an error.
pub fn parse_git_status_porcelain(output: &[u8]) -> (r: Result<Vec<GitWorkspaceChange>, String>)
    ensures
        match parse_from(output@, 0) {
            Ok(m) => r is Ok && changes_ok(r->Ok_0@, m),
            Err(msg) => r is Err && r->Err_0@ == msg,
        },
{
    let mut files: Vec<GitWorkspaceChange> = Vec::new();
    let ghost mut acc: Seq<ChangeModel> = Seq::empty();
    let mut cursor: usize = 0;
    while cursor < output.len()
        invariant
            cursor <= output@.len(),
            changes_ok(files@, acc),
            parse_from(output@, 0) == match parse_from(output@, cursor as int) {
                Ok(rest) => Ok::<Seq<ChangeModel>, Seq<char>>(acc + rest),
                Err(m) => Err(m),
            },
        decreases output.len() - cursor,
    {
        let ghost o = output@;
        let end = match find_nul(output, cursor) {
            Some(e) => e,
            None => {
                return Err("malformed git status output: missing NUL terminator".to_owned());
            },
        };
        proof {
            lemma_nul_from(o, cursor as int);
        }
        let entry = copy_bytes(output, cursor, end);
        let start = cursor;
        let ghost c0 = cursor as int;
        assert(entry@ == o.subrange(c0, end as int));
        cursor = end + 1;
        if entry.len() == 0 {
            continue;
        }
        if entry.len() < 3 {
            return Err(quoted("malformed git status entry: '", &entry));
        }
        let code_bytes = copy_bytes(output, start, start + 2);
        assert(code_bytes@ =~= entry@.subrange(0, 2));
        let code = match utf8_decode(&code_bytes) {
            Some(c) => c,
            None => {
                return Err(quoted("malformed git status code in entry '", &entry));
            },
        };
        if str_eq(code.as_str(), "!!") {
            continue;
        }
        if entry[2] != 32u8 {
            return Err(quoted("malformed git status entry: '", &entry));
        }
        if entry.len() == 3 {
            return Err(quoted("malformed git status entry (missing path): '", &entry));
        }
        let primary = copy_bytes(output, start + 3, end);
        assert(primary@ =~= entry@.subrange(3, entry@.len() as int));
        let path = parse_status_path(&primary);
        let code_chars = chars_of(code.as_str());
        let mut rename = false;
        let mut k: usize = 0;
        while k < code_chars.len()
            invariant
                k <= code_chars@.len(),
                rename == exists|j: int| 0 <= j < k && (code_chars@[j] == 'R' || code_chars@[j] == 'C'),
            decreases code_chars.len() - k,
        {
            if code_chars[k] == 'R' || code_chars[k] == 'C' {
                rename = true;
            }
            k = k + 1;
        }
        proof {
            if has_rename(code@) {
                if code@.contains('R') {
                    let j = choose|j: int| 0 <= j < code@.len() && code@[j] == 'R';
                    assert(code_chars@[j] == 'R');
                } else {
                    let j = choose|j: int| 0 <= j < code@.len() && code@[j] == 'C';
                    assert(code_chars@[j] == 'C');
                }
            }
            if rename {
                let j = choose|j: int| 0 <= j < k && (code_chars@[j] == 'R' || code_chars@[j] == 'C');
                if code_chars@[j] == 'R' {
                    assert(code@.contains('R'));
                } else {
                    assert(code@.contains('C'));
                }
            }
        }
        let mut from_path: Option<String> = None;
        let ghost mut from_model: Option<Seq<u8>> = None;
        if rename {
            let source_end = match find_nul(output, cursor) {
                Some(e) => e,
                None => {
                    return Err("malformed git status output: missing rename/copy source path".to_owned());
                },
            };
            proof {
                lemma_nul_from(o, cursor as int);
            }
            if source_end == cursor {
                return Err("malformed git status output: empty rename/copy source path".to_owned());
            }
            let source = copy_bytes(output, cursor, source_end);
            proof {
                from_model = Some(source@);
            }
            from_path = Some(parse_status_path(&source));
            cursor = source_end + 1;
        }
        let status = classify_git_status(code.as_str());
        let ghost m = ChangeModel { path: primary@, code: code@, from: from_model };
        let ghost before = files@;
        files.push(GitWorkspaceChange { path, status, code, from_path });
        proof {
            assert(files@ == before.push(files@.last()));
            assert(change_ok(files@.last(), m));
            let acc2 = acc.push(m);
            assert forall|i: int| 0 <= i < files@.len() implies change_ok(#[trigger] files@[i], acc2[i]) by {
                if i < acc.len() {
                    assert(files@[i] == before[i]);
                    assert(acc2[i] == acc[i]);
                }
            }
            match parse_from(output@, cursor as int) {
                Ok(rest) => {
                    assert(acc + (seq![m] + rest) =~= acc2 + rest);
                },
                Err(_) => {},
            }
            acc = acc2;
        }
    }
    assert(acc + Seq::<ChangeModel>::empty() =~= acc);
    Ok(files)
}

/// A `..` segment starts at `i`.
pub open spec fn parent_segment_at(p: Seq<char>, i: int) -> bool {
    &&& 0 <= i && i + 2 <= p.len()
    &&& p[i] == '.' && p[i + 1] == '.'
    &&& (i == 0 || p[i - 1] == '/')
    &&& (i + 2 == p.len() || p[i + 2] == '/')
}

/// A relative path of plain segments: not empty, no NUL, not rooted, no `..` segment, and
/// not led by a `.` segment (the segments `Path::components` would not call normal).
pub open spec fn safe_git_path(p: Seq<char>) -> bool {
    &&& p.len() > 0
    &&& !p.contains('\0')
    &&& p[0] != '/'
    &&& !(p == seq!['.'] || (p.len() >= 2 && p[0] == '.' && p[1] == '/'))
    &&& forall|i: int| !parent_segment_at(p, i)
}

pub fn is_safe_git_path(path: &str) -> (r: bool)
    ensures
        r == safe_git_path(path@),
{
    let p = chars_of(path);
    let n = p.len();
    if n == 0 {
        return false;
    }
    let mut i: usize = 0;
    while i < n
        invariant
            n == p@.len(),
            p@ == path@,
            i <= n,
            forall|j: int| 0 <= j < i ==> p@[j] != '\0',
            forall|j: int| 0 <= j < i ==> !parent_segment_at(p@, j),
        decreases n - i,
    {
        if p[i] == '\0' {
            assert(p@.contains('\0'));
            return false;
        }
        if n - i >= 2 && p[i] == '.' && p[i + 1] == '.' && (i == 0 || p[i - 1] == '/') && (i + 2 == n || p[i + 2] == '/') {
            assert(parent_segment_at(p@, i as int));
            return false;
        }
        i = i + 1;
    }
    if p[0] == '/' {
        return false;
    }
    if (n == 1 && p[0] == '.') || (n >= 2 && p[0] == '.' && p[1] == '/') {
        proof {
            if n == 1 {
                assert(p@ =~= seq!['.']);
            }
        }
        return false;
    }
    proof {
        assert(!p@.contains('\0'));
        assert forall|j: int| !parent_segment_at(p@, j) by {
            if 0 <= j < n {
            }
        }
        if p@ == seq!['.'] {
            assert(p@[0] == '.');
        }
    }
    true
}

/// The pathspec that makes git take `path` literally.
pub fn to_literal_pathspec(path: &str) -> (r: String)
    ensures
        r@ == ":(literal)"@ + path@,
{
    concat_str(":(literal)", path)
}

/// A signed number in decimal.
pub open spec fn int_text(i: int) -> Seq<char> {
    if i < 0 {
        "-"@ + crate::text::decimal((-i) as nat)
    } else {
        crate::text::decimal(i as nat)
    }
}

/// What a failed git command said: its error output, else its output, else its exit status.
pub fn git_result_details(result: &GitCommandExecutionResult) -> (r: String)
    ensures
        r@ == if trim(result.stderr@).len() > 0 {
            trim(result.stderr@)
        } else if trim(result.stdout@).len() > 0 {
            trim(result.stdout@)
        } else {
            "exit status "@ + int_text(result.status as int)
        },
{
    let stderr = trim_str(result.stderr.as_str());
    if !stderr.as_str().is_empty() {
        return stderr;
    }
    let stdout = trim_str(result.stdout.as_str());
    if !stdout.as_str().is_empty() {
        return stdout;
    }
    let s = result.status;
    let magnitude: u64 = if s < 0 { (-(s as i64)) as u64 } else { s as u64 };
    let digits = crate::text::string_of(&crate::text::decimal_chars(magnitude));
    let number = if s < 0 { concat_str("-", digits.as_str()) } else { digits };
    concat_str("exit status ", number.as_str())
}

/// Checks a working directory for git, given whether it exists and is a directory.
pub fn validate_workspace_cwd(cwd: &str, exists: bool, is_dir: bool) -> (r: Result<(), String>)
    ensures
        !exists ==> r is Err && r->Err_0@ == "git_workspace_changes invalid cwd '"@ + cwd@ + "': path does not exist"@,
        exists && !is_dir ==> r is Err && r->Err_0@ == "git_workspace_changes invalid cwd '"@ + cwd@ + "': path is not a directory"@,
        exists && is_dir ==> r is Ok,
{
    if !exists {
        return Err(concat_str(concat_str("git_workspace_changes invalid cwd '", cwd).as_str(), "': path does not exist"));
    }
    if !is_dir {
        return Err(concat_str(concat_str("git_workspace_changes invalid cwd '", cwd).as_str(), "': path is not a directory"));
    }
    Ok(())
}

} // verus!
