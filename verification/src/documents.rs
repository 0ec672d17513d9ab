//! Publishing and deleting documents: the rules that decide, and the writes
//! that follow from them.

use crate::access::{get_document_safe, same_bytes, store_document_safe, write_outcome};
use crate::codec::{decode_document_spec, encode_document_spec};
use crate::helpers::{
    calculate_file_hash, generate_document_id, sha256, validate_file_size, BYTES_PER_MB,
};
use crate::hexadecimal::hex_text;
use crate::logging::decimal_text;
use crate::records::{anonymous_identity_spec, is_anonymous, Document, DocumentView};
use crate::store::{Collection, Store};
use crate::text::text_bytes;
use crate::validate::{joined, names_view, trim, trimmed, validate_file_type};
use vstd::prelude::*;
use vstd::string::*;
use vstd::utf8::*;

verus! {

/// The answer to a request that publishes or deletes a document.
#[derive(Debug, Clone, Default, PartialEq, Eq)]
pub struct DocumentResponse {
    pub success: bool,
    pub document_id: String,
    pub error_message: String,
    pub file_hash: String,
}

impl DocumentResponse {
    /// Whether the answer has exactly these parts.
    pub open spec fn is(
        &self,
        success: bool,
        document_id: Seq<char>,
        error_message: Seq<char>,
        file_hash: Seq<char>,
    ) -> bool {
        &&& self.success == success
        &&& self.document_id@ == document_id
        &&& self.error_message@ == error_message
        &&& self.file_hash@ == file_hash
    }

    /// Whether the answer is the refusal with this message.
    pub open spec fn refuses(&self, error_message: Seq<char>) -> bool {
        self.is(false, Seq::empty(), error_message, Seq::empty())
    }
}

fn refusal(message: String) -> (response: DocumentResponse)
    ensures
        response.refuses(message@),
{
    DocumentResponse {
        success: false,
        document_id: String::new(),
        error_message: message,
        file_hash: String::new(),
    }
}

/// The largest file that can be published, in mebibytes.
pub const MAX_UPLOAD_MB: usize = 10;

/// The file types that can be published.
pub open spec fn allowed_types() -> Seq<Seq<char>> {
    seq![
        "image/jpeg"@,
        "image/png"@,
        "application/pdf"@,
        "text/plain"@,
        "application/vnd.ms-excel"@,
        "application/vnd.openxmlformats-officedocument.spreadsheetml.sheet"@,
        "application/vnd.ms-excel.sheet.macroEnabled.12"@,
        "application/vnd.ms-excel.template.macroEnabled.12"@,
        "application/vnd.ms-excel.addin.macroEnabled.12"@,
        "application/vnd.ms-excel.sheet.binary.macroEnabled.12"@,
    ]
}

/// Why a document cannot be published, if it cannot: the checks in the order
/// they are made.
pub open spec fn upload_refusal(metadata: DocumentView, institutions: Map<Seq<u8>, Seq<u8>>)
    -> Option<Seq<char>> {
    if metadata.file_data.len() == 0 {
        Some("File data cannot be empty. Please upload a valid file."@)
    } else if metadata.file_data.len() > MAX_UPLOAD_MB * BYTES_PER_MB {
        Some("File size exceeds "@ + decimal_text(MAX_UPLOAD_MB as nat) + "MB limit"@)
    } else if !allowed_types().contains(trimmed(metadata.file_type)) {
        Some("Unsupported file type. Allowed types: "@ + joined(allowed_types()))
    } else if trimmed(metadata.institution_id).len() > 0 && !institutions.contains_key(
        encode_utf8(trimmed(metadata.institution_id)),
    ) {
        Some("Specified institution does not exist"@)
    } else {
        None
    }
}

/// The id of a document published at `timestamp`.
pub open spec fn published_id(timestamp: u64) -> Seq<char> {
    "document_"@ + decimal_text(timestamp as nat)
}

/// The document that is stored when `metadata` is published at `timestamp`:
/// with a generated id, the hash of its file, its institution id trimmed, and
/// the time of publication.
pub open spec fn published(metadata: DocumentView, timestamp: u64) -> DocumentView {
    DocumentView {
        document_id: published_id(timestamp),
        file_hash: hex_text(sha256(metadata.file_data)),
        institution_id: trimmed(metadata.institution_id),
        publication_date: timestamp,
        ..metadata
    }
}

/// Publishes a document at `timestamp`. The file must not be empty nor larger
/// than ten mebibytes, its type must be allowed, and its institution, if it
/// names one, must exist. Nothing is stored when the document is refused.
pub fn upload_file_and_publish_document(store: &mut Store, metadata: Document, timestamp: u64) -> (response:
    DocumentResponse)
    requires
        old(store).wf(),
    ensures
        final(store).wf(),
        forall|d: Collection|
            d != Collection::Documents ==> #[trigger] final(store).contents(d) == old(
                store,
            ).contents(d),
        match upload_refusal(metadata@, old(store).contents(Collection::Institutions)) {
            Some(message) => response.refuses(message) && final(store).contents(
                Collection::Documents,
            ) == old(store).contents(Collection::Documents),
            None => match write_outcome(
                encode_utf8(published_id(timestamp)),
                encode_utf8(published_id(timestamp)),
                encode_document_spec(published(metadata@, timestamp)),
                true,
            ) {
                Ok(_) => response.is(
                    true,
                    published_id(timestamp),
                    Seq::empty(),
                    hex_text(sha256(metadata@.file_data)),
                ) && final(store).contents(Collection::Documents) == old(store).contents(
                    Collection::Documents,
                ).insert(
                    encode_utf8(published_id(timestamp)),
                    encode_document_spec(published(metadata@, timestamp)),
                ),
                Err(error) => response.refuses(
                    "Failed to store document: "@ + error.message_text(),
                ) && final(store).contents(Collection::Documents) == old(store).contents(
                    Collection::Documents,
                ),
            },
        },
{
    if metadata.file_data.len() == 0 {
        return refusal(
            String::from_str("File data cannot be empty. Please upload a valid file."),
        );
    }
    match validate_file_size(metadata.file_data.len(), MAX_UPLOAD_MB) {
        Err(e) => { return refusal(e); },
        Ok(_) => {},
    }
    let allowed = [
        "image/jpeg",
        "image/png",
        "application/pdf",
        "text/plain",
        "application/vnd.ms-excel",
        "application/vnd.openxmlformats-officedocument.spreadsheetml.sheet",
        "application/vnd.ms-excel.sheet.macroEnabled.12",
        "application/vnd.ms-excel.template.macroEnabled.12",
        "application/vnd.ms-excel.addin.macroEnabled.12",
        "application/vnd.ms-excel.sheet.binary.macroEnabled.12",
    ];
    assert(names_view(allowed@) =~= allowed_types());
    match validate_file_type(metadata.file_type.as_str(), allowed.as_slice()) {
        Err(e) => { return refusal(e); },
        Ok(_) => {},
    }
    let normalized = String::from_str(trim(metadata.institution_id.as_str()));
    if !normalized.as_str().is_empty() {
        let key = text_bytes(normalized.as_str());
        if !store.contains_raw(Collection::Institutions, &key) {
            return refusal(String::from_str("Specified institution does not exist"));
        }
    }
    let document_id = generate_document_id(timestamp);
    let calculated_hash = calculate_file_hash(metadata.file_data.as_slice());
    let ghost given = metadata@;
    let mut document = metadata;
    document.document_id = document_id.clone();
    document.file_hash = calculated_hash.clone();
    document.institution_id = normalized;
    document.publication_date = timestamp;
    assert(document@ == published(given, timestamp));
    match store_document_safe(store, document_id.as_str(), &document) {
        Err(e) => {
            let mut message = String::from_str("Failed to store document: ");
            message.append(e.message());
            refusal(message)
        },
        Ok(_) => DocumentResponse {
            success: true,
            document_id,
            error_message: String::new(),
            file_hash: calculated_hash,
        },
    }
}

/// Why a document cannot be deleted by `caller`, if it cannot: the checks in
/// the order they are made.
pub open spec fn delete_refusal(
    documents: Map<Seq<u8>, Seq<u8>>,
    document_id: Seq<char>,
    caller: Seq<u8>,
) -> Option<Seq<char>> {
    if caller == anonymous_identity_spec() {
        Some(
            "Anonymous users cannot perform this action. Please log in with Internet Identity first."@,
        )
    } else if !documents.contains_key(encode_utf8(document_id)) {
        Some("Document not found"@)
    } else if decode_document_spec(documents[encode_utf8(document_id)]).owner != caller {
        Some("Access denied. You can only delete your own documents."@)
    } else {
        None
    }
}

/// Deletes the document `document_id` for `caller`, who must not be anonymous
/// and must own it. Nothing changes when the request is refused.
pub fn delete_document(store: &mut Store, document_id: &str, caller: &Vec<u8>) -> (response:
    DocumentResponse)
    requires
        old(store).wf(),
    ensures
        final(store).wf(),
        forall|d: Collection|
            d != Collection::Documents ==> #[trigger] final(store).contents(d) == old(
                store,
            ).contents(d),
        match delete_refusal(old(store).contents(Collection::Documents), document_id@, caller@) {
            Some(message) => response.refuses(message) && final(store).contents(
                Collection::Documents,
            ) == old(store).contents(Collection::Documents),
            None => response.is(
                true,
                document_id@,
                Seq::empty(),
                decode_document_spec(
                    old(store).contents(Collection::Documents)[encode_utf8(document_id@)],
                ).file_hash,
            ) && final(store).contents(Collection::Documents) == old(store).contents(
                Collection::Documents,
            ).remove(encode_utf8(document_id@)),
        },
{
    if is_anonymous(caller) {
        return refusal(
            String::from_str(
                "Anonymous users cannot perform this action. Please log in with Internet Identity first.",
            ),
        );
    }
    let document = match get_document_safe(store, document_id) {
        Some(document) => document,
        None => { return refusal(String::from_str("Document not found")); },
    };
    if !same_bytes(document.owner.as_slice(), caller.as_slice()) {
        return refusal(
            String::from_str("Access denied. You can only delete your own documents."),
        );
    }
    let key = text_bytes(document_id);
    store.remove_raw(Collection::Documents, &key);
    DocumentResponse {
        success: true,
        document_id: String::from_str(document_id),
        error_message: String::new(),
        file_hash: document.file_hash,
    }
}

} // verus!
