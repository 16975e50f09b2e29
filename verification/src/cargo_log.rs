//! Messages of the cargo install checks.
use vstd::prelude::*;

use crate::text::push_str;

verus! {

/// `log_fn` was handed the line `text`.
pub open spec fn logged<L: FnMut(&str)>(log_fn: L, text: Seq<char>) -> bool {
    exists|m: &str| #![trigger call_ensures(log_fn, (m,), ())] m@ == text && call_ensures(log_fn, (m,), ())
}

/// `cargo check: リポジトリ=<owner>/<repo> 結果=<result>`.
pub open spec fn cargo_check_message(owner: Seq<char>, repo: Seq<char>, result: Seq<char>) -> Seq<char> {
    "cargo check: リポジトリ="@ + owner + "/"@ + repo + " 結果="@ + result
}

/// The log line for one step of a cargo check.
pub fn cargo_check_message_string(owner: &str, repo_name: &str, result: &str) -> (r: String)
    ensures
        r@ == cargo_check_message(owner@, repo_name@, result@),
{
    let mut s = String::new();
    push_str(&mut s, "cargo check: リポジトリ=");
    push_str(&mut s, owner);
    push_str(&mut s, "/");
    push_str(&mut s, repo_name);
    push_str(&mut s, " 結果=");
    push_str(&mut s, result);
    assert(s@ =~= cargo_check_message(owner@, repo_name@, result@));
    s
}

/// Hands one cargo check step to the logger.
pub fn log_cargo_check_result<L: FnMut(&str)>(
    log_fn: &mut L,
    owner: &str,
    repo_name: &str,
    result: &str,
)
    requires
        forall|s: &str| call_requires(*old(log_fn), (s,)),
    ensures
        forall|s: &str| call_requires(*final(log_fn), (s,)),
        exists|m: &str|
            #![trigger call_ensures(*old(log_fn), (m,), ())]
            m@ == cargo_check_message(owner@, repo_name@, result@) && call_ensures(*old(log_fn), (m,), ()),
{
    let msg = cargo_check_message_string(owner, repo_name, result);
    log_fn(msg.as_str());
}

/// `========== <repo> ==========`, the header of a repository's section of
/// the auto-update log.
pub open spec fn section_header(repo_full_name: Seq<char>) -> Seq<char> {
    "========== "@ + repo_full_name + " =========="@
}

/// The lines of a repository's section of the auto-update log: its header,
/// then the messages in order.
pub fn auto_update_log_lines(repo_full_name: &str, messages: &[String]) -> (r: Vec<String>)
    ensures
        r@.map_values(|l: String| l@) == seq![section_header(repo_full_name@)] + messages@.map_values(
            |m: String| m@,
        ),
{
    let mut header = String::new();
    push_str(&mut header, "========== ");
    push_str(&mut header, repo_full_name);
    push_str(&mut header, " ==========");
    let mut r: Vec<String> = Vec::new();
    r.push(header);
    let mut i: usize = 0;
    while i < messages.len()
        invariant
            i <= messages@.len(),
            r@.map_values(|l: String| l@) == seq![section_header(repo_full_name@)]
                + messages@.take(i as int).map_values(|m: String| m@),
        decreases messages@.len() - i,
    {
        let ghost before = r@;
        r.push(messages[i].clone());
        assert(messages@.take(i + 1).map_values(|m: String| m@) =~= messages@.take(
            i as int,
        ).map_values(|m: String| m@).push(messages@[i as int]@));
        assert(r@.map_values(|l: String| l@) =~= before.map_values(|l: String| l@).push(
            messages@[i as int]@,
        ));
        i += 1;
    }
    assert(messages@.take(messages@.len() as int) =~= messages@);
    r
}

} // verus!
