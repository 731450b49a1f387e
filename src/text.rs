use vstd::prelude::*;
use vstd::string::StringExecFns;

verus! {

/// The decimal digit `d` (`d < 10`).
pub open spec fn digit_char(d: nat) -> char {
    seq!['0', '1', '2', '3', '4', '5', '6', '7', '8', '9'][d as int]
}

/// `n` written in decimal, without leading zeros.
pub open spec fn decimal(n: nat) -> Seq<char>
    decreases n,
{
    if n < 10 {
        seq![digit_char(n)]
    } else {
        decimal(n / 10).push(digit_char(n % 10))
    }
}

/// Relies on the `Display` of `u64` behind `to_string`: plain decimal digits.
#[verifier::external_body]
fn decimal_string(n: u64) -> (r: String)
    ensures
        r@ == decimal(n as nat),
{
    n.to_string()
}

/// The line that reports the score of the player numbered `number` (counting from one).
pub open spec fn score_line(number: nat, score: nat) -> Seq<char> {
    "Player "@ + decimal(number) + " scored "@ + decimal(score) + " points.\n"@
}

/// One score line per entry of `scores`, in order.
pub open spec fn score_summary(scores: Seq<u32>) -> Seq<char>
    decreases scores.len(),
{
    if scores.len() == 0 {
        Seq::empty()
    } else {
        score_summary(scores.drop_last()) + score_line(scores.len() as nat, scores.last() as nat)
    }
}

/// The end-of-game message: "Player N scored S points." on a line for each player.
pub fn summary_message(scores: &Vec<u32>) -> (r: String)
    ensures
        r@ == score_summary(scores@),
{
    let mut message = String::new();
    let mut i: usize = 0;
    while i < scores.len()
        invariant
            0 <= i <= scores@.len(),
            message@ == score_summary(scores@.take(i as int)),
        decreases scores@.len() - i,
    {
        assert(scores@.take(i + 1).drop_last() =~= scores@.take(i as int));
        let ghost before = message@;
        message.append("Player ");
        let number = decimal_string(i as u64 + 1);
        message.append(number.as_str());
        message.append(" scored ");
        let score = decimal_string(scores[i] as u64);
        message.append(score.as_str());
        message.append(" points.\n");
        assert(message@ =~= before + score_line((i + 1) as nat, scores@[i as int] as nat));
        i = i + 1;
    }
    assert(scores@.take(scores@.len() as int) =~= scores@);
    message
}

} // verus!
