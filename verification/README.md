# authenticate_ntlm

Authenticate by ntlm: verifies the `NTLMv2` response against the stored hash, with the rules it
keeps stated as contracts and proved with Verus.

It recomputes the `NTProofStr` of a type 3 message from the NT hash the node holds for the user and
a server challenge the node issued, and spends the challenge when it proves. A proven response is
then held to its own timestamp, to the service the node is, to the channel it serves and to its MIC.
It does not verify `NTLMv1` or LM responses, and it signs and seals nothing.

- `src/message.rs` reads the AUTHENTICATE message.
- `src/account.rs` holds a user's NT hash.
- `src/gate.rs` is the verifier: what is to be read of a claim, the response key, the outstanding
  challenges, and the verdict.
- `src/binding.rs` and `src/rc4.rs` are the channel, the session key and the MIC.
- `src/presented.rs` is what is put before the verifier, and `src/refusal.rs` what it answers.
- `src/text.rs`, `src/bytes.rs`, `src/base64_text.rs`, `src/crypto.rs` and `src/clock.rs` are what
  these are made of.
- `src/laws.rs` states what holds of the whole.
- `app/` makes an authenticator of it: it asks the readers of principal names and of NTLM messages,
  shares the verifier between threads and keeps the clock.

A claim is verified in two steps: `questions` says what is to be read of it, and `Verifier::verify`
decides on what was read and on the time.
