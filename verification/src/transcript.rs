//! Fiat–Shamir transcripts for non-interactive public-coin protocols.
use vstd::prelude::*;
use vstd::string::StringSliceAdditionalSpecFns;
use crate::field::{le_nat, modulus, scalar_bytes, scalars_view, u64_le_bytes, Scalar};

verus! {

#[verifier::external_type_specification]
#[verifier::external_body]
pub struct ExMerlinTranscript(merlin::Transcript);

/// One framed transcript operation: whether it drew a challenge, its label
/// bytes, and the message appended or the challenge bytes drawn.
pub type TranscriptEntry = (bool, Seq<u8>, Seq<u8>);

/// The framed operations a Merlin transcript has absorbed since it was created.
pub uninterp spec fn merlin_entries(transcript: merlin::Transcript) -> Seq<(bool, Seq<u8>, Seq<u8>)>;

/// The bytes Merlin's `challenge_bytes` produces after the given operations,
/// for the given label and output length.
pub uninterp spec fn merlin_challenge_output(
    entries: Seq<(bool, Seq<u8>, Seq<u8>)>,
    label: Seq<u8>,
    length: nat,
) -> Seq<u8>;

pub open spec fn message_entry(label: Seq<u8>, message: Seq<u8>) -> TranscriptEntry {
    (false, label, message)
}

pub open spec fn challenge_entry(label: Seq<u8>, output: Seq<u8>) -> TranscriptEntry {
    (true, label, output)
}

/// The bytes of Merlin's domain-separation label `dom-sep`.
pub open spec fn dom_sep_label() -> Seq<u8> {
    "dom-sep".spec_bytes()
}

/// The 32 little-endian bytes of the scalar field modulus.
pub open spec fn modulus_le_bytes() -> Seq<u8> {
    seq![
        1u8, 0, 0, 0, 255, 255, 255, 255, 254, 91, 254, 255, 2, 164, 189, 83, 5, 216, 161, 9, 8,
        216, 57, 51, 72, 125, 157, 41, 83, 167, 237, 115,
    ]
}

/// Length of every challenge Merlin is asked for: 512 bits, so reduction
/// modulo `r` has negligible bias.
pub open spec fn challenge_width() -> nat {
    64
}

/// Starts a Merlin transcript: `merlin::Transcript::new` initialises STROBE and
/// appends the application label under `dom-sep`.
#[verifier::external_body]
fn merlin_new(label: &'static str) -> (r: merlin::Transcript)
    requires
        label.spec_bytes().len() <= u32::MAX,
    ensures
        merlin_entries(r) == seq![message_entry(dom_sep_label(), label.spec_bytes())],
{
    merlin::Transcript::new(label.as_bytes())
}

/// `merlin::Transcript::append_message`, which frames the label and message.
#[verifier::external_body]
fn merlin_append_message(transcript: &mut merlin::Transcript, label: &'static str, message: &[u8])
    requires
        message@.len() <= u32::MAX,
    ensures
        merlin_entries(*final(transcript)) == merlin_entries(*old(transcript)).push(
            message_entry(label.spec_bytes(), message@),
        ),
{
    transcript.append_message(label.as_bytes(), message)
}

/// `merlin::Transcript::append_u64`, which appends the eight little-endian
/// bytes of the value as a message.
#[verifier::external_body]
fn merlin_append_u64(transcript: &mut merlin::Transcript, label: &'static str, value: u64)
    ensures
        merlin_entries(*final(transcript)) == merlin_entries(*old(transcript)).push(
            message_entry(label.spec_bytes(), u64_le_bytes(value)),
        ),
{
    transcript.append_u64(label.as_bytes(), value)
}

/// `merlin::Transcript::challenge_bytes` for a 64-byte output.
#[verifier::external_body]
fn merlin_challenge_bytes(transcript: &mut merlin::Transcript, label: &'static str) -> (r: Vec<u8>)
    ensures
        r@ == merlin_challenge_output(merlin_entries(*old(transcript)), label.spec_bytes(), 64),
        r@.len() == 64,
        merlin_entries(*final(transcript)) == merlin_entries(*old(transcript)).push(
            challenge_entry(label.spec_bytes(), r@),
        ),
{
    let mut bytes = [0u8; 64];
    transcript.challenge_bytes(label.as_bytes(), &mut bytes);
    bytes.to_vec()
}

/// An ASCII label of bounded length fits Merlin's 32-bit length framing.
pub proof fn lemma_ascii_label(label: &str)
    requires
        vstd::string::is_ascii(label),
        label@.len() <= u32::MAX,
    ensures
        label.spec_bytes().len() <= u32::MAX,
{
    vstd::string::is_ascii_spec_bytes(label);
}

/// What drawing `count` indexed challenges under `label` does after
/// `entries`: each index is appended and then a challenge drawn. Gives the
/// entries after them and the field elements drawn.
pub open spec fn challenge_vector_outcome<T: ProofTranscript>(
    entries: Seq<TranscriptEntry>,
    label: Seq<u8>,
    count: nat,
) -> (Seq<TranscriptEntry>, Seq<nat>)
    decreases count,
{
    if count == 0 {
        (entries, seq![])
    } else {
        let (previous, values) = challenge_vector_outcome::<T>(entries, label, (count - 1) as nat);
        let bound = previous.push(message_entry("challenge-index".spec_bytes(), u64_le_bytes((count - 1) as u64)));
        let output = T::challenge_output(bound, label);
        (bound.push(challenge_entry(label, output)), values.push(le_nat(output) % modulus()))
    }
}

/// Transcript operations needed by the protocol modules.
///
/// `entries` is the sequence of framed operations absorbed so far and
/// `challenge_output` the 64 bytes a challenge yields after given entries, so a
/// challenge is a function of everything bound before it.
pub trait ProofTranscript: Sized {
    spec fn entries(&self) -> Seq<TranscriptEntry>;

    spec fn challenge_output(entries: Seq<TranscriptEntry>, label: Seq<u8>) -> Seq<u8>;

    fn append_domain_separator(&mut self, label: &'static str)
        requires
            label.spec_bytes().len() <= u32::MAX,
        ensures
            final(self).entries() == old(self).entries().push(
                message_entry(dom_sep_label(), label.spec_bytes()),
            ),
    ;

    fn append_field_element(&mut self, label: &'static str, element: &Scalar)
        ensures
            final(self).entries() == old(self).entries().push(
                message_entry(label.spec_bytes(), scalar_bytes(element@)),
            ),
    ;

    fn append_bytes(&mut self, label: &'static str, bytes: &[u8])
        requires
            bytes@.len() <= u32::MAX,
        ensures
            final(self).entries() == old(self).entries().push(message_entry(label.spec_bytes(), bytes@)),
    ;

    fn append_u64(&mut self, label: &'static str, value: u64)
        ensures
            final(self).entries() == old(self).entries().push(
                message_entry(label.spec_bytes(), u64_le_bytes(value)),
            ),
    ;

    fn challenge_scalar(&mut self, label: &'static str) -> (r: Scalar)
        ensures
            r@ == le_nat(Self::challenge_output(old(self).entries(), label.spec_bytes())) % modulus(),
            final(self).entries() == old(self).entries().push(
                challenge_entry(
                    label.spec_bytes(),
                    Self::challenge_output(old(self).entries(), label.spec_bytes()),
                ),
            ),
    ;

    /// Binds the little-endian bytes of the field modulus.
    fn append_field_modulus(&mut self)
        ensures
            final(self).entries() == old(self).entries().push(
                message_entry("field-modulus".spec_bytes(), modulus_le_bytes()),
            ),
    {
        let modulus = vec![
            1u8, 0, 0, 0, 255, 255, 255, 255, 254, 91, 254, 255, 2, 164, 189, 83, 5, 216, 161, 9,
            8, 216, 57, 51, 72, 125, 157, 41, 83, 167, 237, 115,
        ];
        assert(modulus@ == modulus_le_bytes());
        self.append_bytes("field-modulus", modulus.as_slice());
    }
}

/// Draws `length` challenges from `transcript`, each after appending its
/// index.
pub fn challenge_vector<T: ProofTranscript>(transcript: &mut T, label: &'static str, length: usize) -> (r: Vec<
    Scalar,
>)
    ensures
        ({
            let (entries, values) = challenge_vector_outcome::<T>(
                old(transcript).entries(),
                label.spec_bytes(),
                length as nat,
            );
            &&& final(transcript).entries() == entries
            &&& scalars_view(r@) == values
        }),
{
    let mut values: Vec<Scalar> = Vec::new();
    let mut index: usize = 0;
    while index < length
        invariant
            index <= length,
            ({
                let (entries, drawn) = challenge_vector_outcome::<T>(
                    old(transcript).entries(),
                    label.spec_bytes(),
                    index as nat,
                );
                &&& transcript.entries() == entries
                &&& scalars_view(values@) == drawn
            }),
        decreases length - index,
    {
        transcript.append_u64("challenge-index", index as u64);
        let value = transcript.challenge_scalar(label);
        values.push(value);
        proof {
            let next = challenge_vector_outcome::<T>(old(transcript).entries(), label.spec_bytes(), (index + 1) as nat);
            assert(scalars_view(values@) =~= next.1);
        }
        index = index + 1;
    }
    values
}

/// Merlin/STROBE-backed Fiat–Shamir transcript with framed messages.
pub struct MerlinTranscript {
    inner: merlin::Transcript,
}

impl MerlinTranscript {
    pub fn new(application_label: &'static str) -> (r: MerlinTranscript)
        requires
            application_label.spec_bytes().len() <= u32::MAX,
        ensures
            r.entries() == seq![message_entry(dom_sep_label(), application_label.spec_bytes())],
    {
        MerlinTranscript { inner: merlin_new(application_label) }
    }
}

impl ProofTranscript for MerlinTranscript {
    closed spec fn entries(&self) -> Seq<TranscriptEntry> {
        merlin_entries(self.inner)
    }

    open spec fn challenge_output(entries: Seq<TranscriptEntry>, label: Seq<u8>) -> Seq<u8> {
        merlin_challenge_output(entries, label, challenge_width())
    }

    fn append_domain_separator(&mut self, label: &'static str) {
        let message = label.as_bytes();
        merlin_append_message(&mut self.inner, "dom-sep", message);
    }

    fn append_field_element(&mut self, label: &'static str, element: &Scalar) {
        let bytes = element.to_le_bytes();
        merlin_append_message(&mut self.inner, label, bytes.as_slice());
    }

    fn append_bytes(&mut self, label: &'static str, bytes: &[u8]) {
        merlin_append_message(&mut self.inner, label, bytes);
    }

    fn append_u64(&mut self, label: &'static str, value: u64) {
        merlin_append_u64(&mut self.inner, label, value);
    }

    fn challenge_scalar(&mut self, label: &'static str) -> (r: Scalar) {
        let bytes = merlin_challenge_bytes(&mut self.inner, label);
        Scalar::from_le_bytes_mod_order(bytes.as_slice())
    }
}

/// For each value, its index under `index_label` and then the value under
/// `value_label`.
pub open spec fn indexed_entries(index_label: Seq<u8>, value_label: Seq<u8>, values: Seq<Seq<u8>>) -> Seq<
    TranscriptEntry,
>
    decreases values.len(),
{
    if values.len() == 0 {
        seq![]
    } else {
        indexed_entries(index_label, value_label, values.drop_last()) + seq![
            message_entry(index_label, u64_le_bytes((values.len() - 1) as u64)),
            message_entry(value_label, values.last()),
        ]
    }
}

/// The canonical encodings of a sequence of field elements.
pub open spec fn scalar_encodings(values: Seq<nat>) -> Seq<Seq<u8>> {
    values.map_values(|value: nat| scalar_bytes(value))
}

/// The byte strings held by a sequence of vectors.
pub open spec fn byte_strings(values: Seq<Vec<u8>>) -> Seq<Seq<u8>> {
    values.map_values(|value: Vec<u8>| value@)
}

/// Every byte string fits Merlin's 32-bit length framing.
pub open spec fn all_framable(values: Seq<Seq<u8>>) -> bool {
    forall|i: int| 0 <= i < values.len() ==> (#[trigger] values[i]).len() <= u32::MAX
}

/// Appends each byte string after its index.
pub fn append_indexed_bytes<T: ProofTranscript>(
    transcript: &mut T,
    index_label: &'static str,
    value_label: &'static str,
    values: &[Vec<u8>],
)
    requires
        all_framable(byte_strings(values@)),
    ensures
        final(transcript).entries() == old(transcript).entries() + indexed_entries(
            index_label.spec_bytes(),
            value_label.spec_bytes(),
            byte_strings(values@),
        ),
{
    let mut i: usize = 0;
    while i < values.len()
        invariant
            i <= values@.len(),
            all_framable(byte_strings(values@)),
            transcript.entries() == old(transcript).entries() + indexed_entries(
                index_label.spec_bytes(),
                value_label.spec_bytes(),
                byte_strings(values@.take(i as int)),
            ),
        decreases values@.len() - i,
    {
        assert(byte_strings(values@)[i as int] == values@[i as int]@);
        transcript.append_u64(index_label, i as u64);
        transcript.append_bytes(value_label, values[i].as_slice());
        proof {
            let next = byte_strings(values@.take(i + 1));
            assert(next.drop_last() =~= byte_strings(values@.take(i as int)));
        }
        i = i + 1;
    }
    assert(values@.take(i as int) =~= values@);
}

/// Appends each field element after its index.
pub fn append_indexed_scalars<T: ProofTranscript>(
    transcript: &mut T,
    index_label: &'static str,
    value_label: &'static str,
    values: &[Scalar],
)
    ensures
        final(transcript).entries() == old(transcript).entries() + indexed_entries(
            index_label.spec_bytes(),
            value_label.spec_bytes(),
            scalar_encodings(crate::field::scalars_view(values@)),
        ),
{
    let mut i: usize = 0;
    while i < values.len()
        invariant
            i <= values@.len(),
            transcript.entries() == old(transcript).entries() + indexed_entries(
                index_label.spec_bytes(),
                value_label.spec_bytes(),
                scalar_encodings(crate::field::scalars_view(values@.take(i as int))),
            ),
        decreases values@.len() - i,
    {
        transcript.append_u64(index_label, i as u64);
        transcript.append_field_element(value_label, &values[i]);
        proof {
            let next = scalar_encodings(crate::field::scalars_view(values@.take(i + 1)));
            assert(next.drop_last() =~= scalar_encodings(crate::field::scalars_view(values@.take(i as int))));
        }
        i = i + 1;
    }
    assert(values@.take(i as int) =~= values@);
}

} // verus!
