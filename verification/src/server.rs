//! Per-connection gateway state: the active slot nonce, the byte offset
//! already delivered to the client, and the slot-store paths derived from
//! them.
//!
//! One value of [`OlianaServer`] exists per logical client connection. The
//! transport layer may duplicate the handle per message, so the driver keeps
//! it behind a shared, concurrency-safe cell; the operations here take the
//! state by plain `&mut` and the driver is responsible for not overlapping a
//! `begin` with an in-flight `next_token` on the same session.

use vstd::prelude::*;

use crate::decimal::{append_decimal, dec_rep};

verus! {

/// Gateway state for one client connection.
pub struct OlianaServer {
    /// Client network identity, informational only.
    pub client_endpoint: String,
    /// Directory of the slot store: request records, response streams and
    /// completion markers all live here.
    pub ai_workdir_text: String,
    /// Index of the current request slot. Advances only through allocation,
    /// never decreases.
    pub text_input_nonce: usize,
    /// How many bytes of the current slot's response stream have already
    /// been returned to the client.
    pub generate_text_next_byte_i: usize,
}

/// The path of the slot file for nonce `nonce` with name suffix `suffix`,
/// under directory `dir`: `{dir}/{nonce}{suffix}`.
pub open spec fn slot_file_path(dir: Seq<char>, nonce: nat, suffix: Seq<char>) -> Seq<char> {
    dir + seq!['/'] + dec_rep(nonce) + suffix
}

impl OlianaServer {
    /// A fresh session: slot index 0, nothing delivered yet.
    pub fn new(client_endpoint: &str, ai_workdir_text: &str) -> (r: Self)
        ensures
            r.client_endpoint@ == client_endpoint@,
            r.ai_workdir_text@ == ai_workdir_text@,
            r.text_input_nonce == 0,
            r.generate_text_next_byte_i == 0,
    {
        OlianaServer {
            client_endpoint: client_endpoint.to_owned(),
            ai_workdir_text: ai_workdir_text.to_owned(),
            text_input_nonce: 0,
            generate_text_next_byte_i: 0,
        }
    }

    /// The current slot index.
    pub fn read_text_input_nonce(&self) -> (r: usize)
        ensures
            r == self.text_input_nonce,
    {
        self.text_input_nonce
    }

    /// The delivered byte offset into the current slot's response stream.
    pub fn read_generate_text_next_byte_i(&self) -> (r: usize)
        ensures
            r == self.generate_text_next_byte_i,
    {
        self.generate_text_next_byte_i
    }

    /// Builds `{workdir}/{nonce}{suffix}`.
    fn build_slot_path(&self, suffix: &str) -> (r: String)
        ensures
            r@ == slot_file_path(
                self.ai_workdir_text@,
                self.text_input_nonce as nat,
                suffix@,
            ),
    {
        let mut out = String::new();
        out.append(self.ai_workdir_text.as_str());
        out.append("/");
        append_decimal(&mut out, self.text_input_nonce);
        out.append(suffix);
        proof {
            reveal_strlit("/");
            assert("/"@ =~= seq!['/']);
            assert(((Seq::<char>::empty() + self.ai_workdir_text@) + "/"@) + dec_rep(
                self.text_input_nonce as nat,
            ) + suffix@ =~= slot_file_path(
                self.ai_workdir_text@,
                self.text_input_nonce as nat,
                suffix@,
            ));
        }
        out
    }

    /// Path of the current slot's request record, `{workdir}/{nonce}.json`.
    pub fn get_current_text_input_json_path(&self) -> (r: String)
        ensures
            r@ == slot_file_path(
                self.ai_workdir_text@,
                self.text_input_nonce as nat,
                ".json"@,
            ),
    {
        self.build_slot_path(".json")
    }

    /// Path of the current slot's response stream, `{workdir}/{nonce}.txt`.
    pub fn get_current_text_output_txt_path(&self) -> (r: String)
        ensures
            r@ == slot_file_path(
                self.ai_workdir_text@,
                self.text_input_nonce as nat,
                ".txt"@,
            ),
    {
        self.build_slot_path(".txt")
    }

    /// Path of the current slot's completion marker, `{workdir}/{nonce}.done`.
    pub fn get_current_text_output_done_path(&self) -> (r: String)
        ensures
            r@ == slot_file_path(
                self.ai_workdir_text@,
                self.text_input_nonce as nat,
                ".done"@,
            ),
    {
        self.build_slot_path(".done")
    }

    /// First step of `begin`: forget the previous slot's delivery progress.
    pub fn reset_delivered_offset(&mut self)
        ensures
            final(self).generate_text_next_byte_i == 0,
            final(self).text_input_nonce == old(self).text_input_nonce,
            final(self).ai_workdir_text == old(self).ai_workdir_text,
            final(self).client_endpoint == old(self).client_endpoint,
    {
        self.generate_text_next_byte_i = 0;
    }

    /// One probe of the nonce scan. The driver tests whether a request
    /// record already exists for the current nonce and reports the result;
    /// an occupied slot advances the nonce and asks for another probe, a
    /// free one settles the allocation.
    pub fn nonce_scan_step(&mut self, request_record_exists: bool) -> (settled: bool)
        requires
            request_record_exists ==> old(self).text_input_nonce < usize::MAX,
        ensures
            settled == !request_record_exists,
            final(self).text_input_nonce == if request_record_exists {
                old(self).text_input_nonce + 1
            } else {
                old(self).text_input_nonce as int
            },
            final(self).generate_text_next_byte_i == old(self).generate_text_next_byte_i,
            final(self).ai_workdir_text == old(self).ai_workdir_text,
            final(self).client_endpoint == old(self).client_endpoint,
    {
        if request_record_exists {
            self.text_input_nonce = self.text_input_nonce + 1;
            false
        } else {
            true
        }
    }
}

/// The slot index where a scan started at `n` settles, when `occ[k]` says
/// whether a request record exists for slot `k` (slots at or past
/// `occ.len()` are free).
pub open spec fn alloc_from(occ: Seq<bool>, n: nat) -> nat
    decreases occ.len() - n,
    when n <= occ.len()
{
    if n >= occ.len() {
        n
    } else if occ[n as int] {
        alloc_from(occ, n + 1)
    } else {
        n
    }
}

/// The scan settles on the smallest free slot at or after its start: the
/// result is free, and every slot between the start and the result is
/// occupied.
pub proof fn lemma_alloc_from_least(occ: Seq<bool>, n: nat)
    requires
        n <= occ.len(),
    ensures
        n <= alloc_from(occ, n) <= occ.len(),
        alloc_from(occ, n) < occ.len() ==> !occ[alloc_from(occ, n) as int],
        forall|k: int| n <= k < alloc_from(occ, n) ==> occ[k],
    decreases occ.len() - n,
{
    if n < occ.len() && occ[n as int] {
        lemma_alloc_from_least(occ, n + 1);
    }
}

} // verus!
