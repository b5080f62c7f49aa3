//! Text that the bridge writes and takes apart: decimal numbers, repository
//! names of the form `owner/name`, and issue titles cut to length.

use vstd::prelude::*;
use vstd::string::*;

verus! {

/// The character that stands for one decimal digit.
pub open spec fn digit_char(d: nat) -> char {
    if d == 0 {
        '0'
    } else if d == 1 {
        '1'
    } else if d == 2 {
        '2'
    } else if d == 3 {
        '3'
    } else if d == 4 {
        '4'
    } else if d == 5 {
        '5'
    } else if d == 6 {
        '6'
    } else if d == 7 {
        '7'
    } else if d == 8 {
        '8'
    } else {
        '9'
    }
}

/// The decimal numeral of `n`, most significant digit first, without padding.
pub open spec fn decimal(n: nat) -> Seq<char>
    decreases n,
{
    if n < 10 {
        seq![digit_char(n)]
    } else {
        decimal(n / 10).push(digit_char(n % 10))
    }
}

/// A numeral of a `u64` has between one and twenty digits.
pub proof fn lemma_decimal_len(n: nat)
    ensures
        1 <= decimal(n).len(),
        n <= u64::MAX ==> decimal(n).len() <= 20,
    decreases n,
{
    if n >= 10 {
        lemma_decimal_len(n / 10);
    }
    if n <= u64::MAX {
        assert(pow10(20) == 100_000_000_000_000_000_000nat) by {
            reveal_with_fuel(pow10, 21);
        }
        lemma_decimal_bound(n, 20);
    }
}

/// The power of ten with exponent `e`.
pub open spec fn pow10(e: nat) -> nat
    decreases e,
{
    if e == 0 {
        1
    } else {
        10 * pow10((e - 1) as nat)
    }
}

/// A number below the `k`-th power of ten has at most `k` digits.
pub proof fn lemma_decimal_bound(n: nat, k: nat)
    requires
        k >= 1,
        n < pow10(k),
    ensures
        decimal(n).len() <= k,
    decreases k,
{
    if n >= 10 {
        assert(pow10(1) == 10) by {
            reveal_with_fuel(pow10, 2);
        }
        assert(k >= 2);
        assert(pow10(k) == 10 * pow10((k - 1) as nat));
        lemma_decimal_bound(n / 10, (k - 1) as nat);
    }
}

fn digit_str(d: u64) -> (s: &'static str)
    requires
        d < 10,
    ensures
        s@ == seq![digit_char(d as nat)],
{
    proof {
        reveal_strlit("0");
        reveal_strlit("1");
        reveal_strlit("2");
        reveal_strlit("3");
        reveal_strlit("4");
        reveal_strlit("5");
        reveal_strlit("6");
        reveal_strlit("7");
        reveal_strlit("8");
        reveal_strlit("9");
    }
    if d == 0 {
        "0"
    } else if d == 1 {
        "1"
    } else if d == 2 {
        "2"
    } else if d == 3 {
        "3"
    } else if d == 4 {
        "4"
    } else if d == 5 {
        "5"
    } else if d == 6 {
        "6"
    } else if d == 7 {
        "7"
    } else if d == 8 {
        "8"
    } else {
        "9"
    }
}

/// Appends the decimal numeral of `n` to `out`.
pub fn push_decimal(out: &mut String, n: u64)
    ensures
        final(out)@ == old(out)@ + decimal(n as nat),
    decreases n,
{
    if n >= 10 {
        push_decimal(out, n / 10);
    }
    out.append(digit_str(n % 10));
}

/// Whether `i` is the place of the first `/` in `s`.
pub open spec fn is_first_slash(s: Seq<char>, i: int) -> bool {
    &&& 0 <= i < s.len()
    &&& s[i] == '/'
    &&& forall|j: int| 0 <= j < i ==> s[j] != '/'
}

/// A repository name taken apart at its first `/`: what stands before it (the
/// owner) and what stands after it (the name). `None` where `s` has no `/`.
pub open spec fn split_repo(s: Seq<char>) -> Option<(Seq<char>, Seq<char>)> {
    if exists|i: int| is_first_slash(s, i) {
        let i = choose|i: int| is_first_slash(s, i);
        Some((s.subrange(0, i), s.subrange(i + 1, s.len() as int)))
    } else {
        None
    }
}

/// Owner and name put together again, with a `/` between them.
pub open spec fn repo_full_name(owner: Seq<char>, name: Seq<char>) -> Seq<char> {
    owner + seq!['/'] + name
}

/// There is at most one first `/`.
pub proof fn lemma_first_slash_unique(s: Seq<char>, i: int, j: int)
    requires
        is_first_slash(s, i),
        is_first_slash(s, j),
    ensures
        i == j,
{
    if i < j {
        assert(s[i] != '/');
    } else if j < i {
        assert(s[j] != '/');
    }
}

/// A name splits exactly when it holds a `/`, the owner then holds none, and
/// the two parts joined by a `/` give the name back.
pub proof fn lemma_split_repo(s: Seq<char>)
    ensures
        split_repo(s) is None <==> forall|j: int| 0 <= j < s.len() ==> s[j] != '/',
        split_repo(s) matches Some((owner, name)) ==> {
            &&& repo_full_name(owner, name) == s
            &&& forall|j: int| 0 <= j < owner.len() ==> owner[j] != '/'
        },
{
    if exists|i: int| is_first_slash(s, i) {
        let i = choose|i: int| is_first_slash(s, i);
        assert(s[i] == '/');
        let owner = s.subrange(0, i);
        let name = s.subrange(i + 1, s.len() as int);
        assert(repo_full_name(owner, name) =~= s);
    } else {
        if exists|j: int| 0 <= j < s.len() && s[j] == '/' {
            let j = choose|j: int| 0 <= j < s.len() && s[j] == '/';
            lemma_has_first_slash(s, j);
        }
    }
}

/// Where `s` holds a `/` at `j`, it has a first one, at `j` or before.
pub proof fn lemma_has_first_slash(s: Seq<char>, j: int)
    requires
        0 <= j < s.len(),
        s[j] == '/',
    ensures
        exists|i: int| is_first_slash(s, i) && i <= j,
    decreases j,
{
    if exists|k: int| 0 <= k < j && s[k] == '/' {
        let k = choose|k: int| 0 <= k < j && s[k] == '/';
        lemma_has_first_slash(s, k);
        let i = choose|i: int| is_first_slash(s, i) && i <= k;
        assert(is_first_slash(s, i) && i <= j);
    } else {
        assert(is_first_slash(s, j));
    }
}

/// A joined name splits at the joint, as long as the owner holds no `/`.
pub proof fn lemma_split_joined(owner: Seq<char>, name: Seq<char>)
    requires
        forall|j: int| 0 <= j < owner.len() ==> owner[j] != '/',
    ensures
        split_repo(repo_full_name(owner, name)) == Some((owner, name)),
{
    let s = repo_full_name(owner, name);
    let at = owner.len() as int;
    assert(s[at] == '/');
    assert(is_first_slash(s, at));
    let i = choose|i: int| is_first_slash(s, i);
    lemma_first_slash_unique(s, i, at);
    assert(s.subrange(0, at) =~= owner);
    assert(s.subrange(at + 1, s.len() as int) =~= name);
}

/// Takes `repo` apart at its first `/`.
pub fn split_repo_name(repo: &str) -> (parts: Option<(String, String)>)
    ensures
        match parts {
            Some((owner, name)) => split_repo(repo@) == Some((owner@, name@)),
            None => split_repo(repo@) is None,
        },
{
    let len: usize = repo.unicode_len();
    let mut i: usize = 0;
    while i < len
        invariant
            i <= len,
            len == repo@.len(),
            forall|j: int| 0 <= j < i ==> repo@[j] != '/',
        decreases len - i,
    {
        if repo.get_char(i) == '/' {
            let owner = repo.substring_char(0, i).to_owned();
            let name = repo.substring_char(i + 1, len).to_owned();
            proof {
                assert(is_first_slash(repo@, i as int));
                let k = choose|k: int| is_first_slash(repo@, k);
                lemma_first_slash_unique(repo@, k, i as int);
            }
            return Some((owner, name));
        }
        i = i + 1;
    }
    proof {
        lemma_split_repo(repo@);
    }
    None
}

/// Joins owner and name with a `/`.
pub fn join_repo_name(owner: &str, name: &str) -> (full: String)
    ensures
        full@ == repo_full_name(owner@, name@),
{
    proof {
        reveal_strlit("/");
    }
    let mut full = owner.to_owned();
    full.append("/");
    full.append(name);
    assert("/"@ =~= seq!['/']);
    full
}

/// The most characters that an issue title takes from a message.
pub const TITLE_CHARS: usize = 30;

/// The title of the issue opened for a message: the message's first
/// characters, up to [`TITLE_CHARS`] of them.
pub open spec fn issue_title(content: Seq<char>) -> Seq<char> {
    if content.len() <= TITLE_CHARS {
        content
    } else {
        content.subrange(0, TITLE_CHARS as int)
    }
}

/// Cuts a message down to the title of its issue.
pub fn make_issue_title(content: &str) -> (title: String)
    ensures
        title@ == issue_title(content@),
{
    let len: usize = content.unicode_len();
    if len <= TITLE_CHARS {
        content.to_owned()
    } else {
        content.substring_char(0, TITLE_CHARS).to_owned()
    }
}

/// The label that marks an issue as opened from chat.
pub open spec fn chat_label() -> Seq<char> {
    "discord"@
}

/// The name of the thread that accompanies issue `number`.
pub open spec fn thread_name(number: nat, title: Seq<char>) -> Seq<char> {
    "Github issue "@ + decimal(number) + " - "@ + title
}

/// The address of issue `number` in the repository `owner/name`.
pub open spec fn issue_url(owner: Seq<char>, name: Seq<char>, number: nat) -> Seq<char> {
    "https://github.com/"@ + owner + "/"@ + name + "/issues/"@ + decimal(number)
}

/// The address of a chat message.
pub open spec fn message_link(guild_id: nat, channel_id: nat, message_id: nat) -> Seq<char> {
    "https://discord.com/channels/"@ + decimal(guild_id) + "/"@ + decimal(channel_id) + "/"@
        + decimal(message_id)
}

/// The tracker comment that mirrors a chat message: who wrote it, what it
/// says, and a link back to it.
pub open spec fn tracker_comment_body(
    author: Seq<char>,
    content: Seq<char>,
    guild_id: nat,
    channel_id: nat,
    message_id: nat,
) -> Seq<char> {
    "New comment from @"@ + author + "\n\n"@ + content + "\n\n[Link]("@ + message_link(
        guild_id,
        channel_id,
        message_id,
    ) + ")"@
}

/// The chat message that mirrors a tracker comment: who wrote it, what it
/// says, and where it stands.
pub open spec fn chat_notice(author: Seq<char>, body: Seq<char>, url: Seq<char>) -> Seq<char> {
    "New comment on Github from @"@ + author + "\n\n"@ + body + "\n\n"@ + url
}

/// A thread's name has at least one character and at most a hundred, which is
/// what the chat platform accepts, as long as the title has at most thirty.
pub proof fn lemma_thread_name_len(number: nat, title: Seq<char>)
    requires
        number <= u64::MAX,
        title.len() <= TITLE_CHARS,
    ensures
        1 <= thread_name(number, title).len() <= 100,
{
    reveal_strlit("Github issue ");
    reveal_strlit(" - ");
    lemma_decimal_len(number);
}

/// The title of an issue has at most [`TITLE_CHARS`] characters and is a prefix
/// of the message.
pub proof fn lemma_issue_title(content: Seq<char>)
    ensures
        issue_title(content).len() <= TITLE_CHARS,
        issue_title(content).len() <= content.len(),
        issue_title(content) == content.subrange(0, issue_title(content).len() as int),
{
    assert(content.subrange(0, content.len() as int) =~= content);
}

/// Writes the name of the thread that accompanies issue `number`.
pub fn make_thread_name(number: u64, title: &str) -> (name: String)
    ensures
        name@ == thread_name(number as nat, title@),
{
    let mut name = "Github issue ".to_owned();
    push_decimal(&mut name, number);
    name.append(" - ");
    name.append(title);
    name
}

/// Writes the address of issue `number` in the repository `owner/name`.
pub fn make_issue_url(owner: &str, name: &str, number: u64) -> (url: String)
    ensures
        url@ == issue_url(owner@, name@, number as nat),
{
    let mut url = "https://github.com/".to_owned();
    url.append(owner);
    url.append("/");
    url.append(name);
    url.append("/issues/");
    push_decimal(&mut url, number);
    url
}

/// Writes the tracker comment that mirrors a chat message.
pub fn make_tracker_comment_body(
    author: &str,
    content: &str,
    guild_id: u64,
    channel_id: u64,
    message_id: u64,
) -> (body: String)
    ensures
        body@ == tracker_comment_body(
            author@,
            content@,
            guild_id as nat,
            channel_id as nat,
            message_id as nat,
        ),
{
    let mut link = "https://discord.com/channels/".to_owned();
    push_decimal(&mut link, guild_id);
    link.append("/");
    push_decimal(&mut link, channel_id);
    link.append("/");
    push_decimal(&mut link, message_id);
    let mut body = "New comment from @".to_owned();
    body.append(author);
    body.append("\n\n");
    body.append(content);
    body.append("\n\n[Link](");
    body.append(link.as_str());
    body.append(")");
    body
}

/// Writes the chat message that mirrors a tracker comment.
pub fn make_chat_notice(author: &str, body: &str, url: &str) -> (notice: String)
    ensures
        notice@ == chat_notice(author@, body@, url@),
{
    let mut notice = "New comment on Github from @".to_owned();
    notice.append(author);
    notice.append("\n\n");
    notice.append(body);
    notice.append("\n\n");
    notice.append(url);
    notice
}

/// The text of an optional string.
pub open spec fn opt_text(o: Option<String>) -> Option<Seq<char>> {
    match o {
        Some(s) => Some(s@),
        None => None,
    }
}

/// Whether two strings hold the same text.
pub fn same_text(a: &str, b: &str) -> (same: bool)
    ensures
        same == (a@ == b@),
{
    let left = a.to_owned();
    let right = b.to_owned();
    left == right
}

} // verus!
