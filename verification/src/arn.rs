//! The names of runtimes.

use vstd::prelude::*;

use crate::auth::{is_account_id, names_account};
use crate::catalog_error::{CatalogError, CatalogErrorView};
use crate::descriptor::{is_runtime_id, valid_runtime_id};
use crate::text::{
    after_prefix, agrees, cat3, cat6, lemma_split_once_joined, lemma_split_once_parts, same,
    split_n, split_once, split_text_n, starts_with, strip_prefix, texts,
};

verus! {

/// The parts of a runtime's ARN that vary.
#[derive(Debug)]
pub struct RuntimeArn {
    pub region: String,
    pub account_id: String,
    pub runtime_id: String,
}

#[verifier::ext_equal]
pub struct RuntimeArnView {
    pub region: Seq<char>,
    pub account_id: Seq<char>,
    pub runtime_id: Seq<char>,
}

impl View for RuntimeArn {
    type V = RuntimeArnView;

    open spec fn view(&self) -> RuntimeArnView {
        RuntimeArnView {
            region: self.region@,
            account_id: self.account_id@,
            runtime_id: self.runtime_id@,
        }
    }
}

/// The ARN of a runtime.
pub open spec fn arn_text(region: Seq<char>, account_id: Seq<char>, runtime_id: Seq<char>) -> Seq<
    char,
> {
    "arn:aws:bedrock-agentcore:"@ + region + ":"@ + account_id + ":runtime/"@ + runtime_id
}

pub fn local_runtime_arn(region: &str, account_id: &str, runtime_id: &str) -> (r: String)
    ensures
        r@ == arn_text(region@, account_id@, runtime_id@),
{
    cat6("arn:aws:bedrock-agentcore:", region, ":", account_id, ":runtime/", runtime_id)
}

pub open spec fn runtime_not_found(value: Seq<char>) -> CatalogErrorView {
    CatalogErrorView::Resolution("runtime "@ + value + " was not found"@)
}

/// The parts of an ARN, where it is the ARN of a runtime.
pub open spec fn arn_parts(value: Seq<char>) -> Option<RuntimeArnView> {
    let parts = split_n(value, ':', 6);
    if parts.len() != 6 {
        None
    } else {
        match after_prefix(parts[5], "runtime/"@) {
            None => None,
            Some(runtime_id) => if parts[0] == "arn"@ && parts[1] == "aws"@ && parts[2]
                == "bedrock-agentcore"@ && parts[3].len() > 0 && is_account_id(parts[4])
                && is_runtime_id(runtime_id) {
                Some(RuntimeArnView { region: parts[3], account_id: parts[4], runtime_id })
            } else {
                None
            },
        }
    }
}

pub open spec fn parsed_arn(value: Seq<char>) -> Result<RuntimeArnView, CatalogErrorView> {
    match arn_parts(value) {
        Some(parts) => Ok(parts),
        None => Err(runtime_not_found(value)),
    }
}

pub fn parse_runtime_arn(value: &str) -> (r: Result<RuntimeArn, CatalogError>)
    ensures
        agrees(r, parsed_arn(value@)),
{
    let parts = split_text_n(value, ':', 6);
    proof {
        assert(texts(parts@).len() == parts@.len());
        if parts@.len() == 6 {
            assert(texts(parts@)[0] == parts@[0]@);
            assert(texts(parts@)[1] == parts@[1]@);
            assert(texts(parts@)[2] == parts@[2]@);
            assert(texts(parts@)[3] == parts@[3]@);
            assert(texts(parts@)[4] == parts@[4]@);
            assert(texts(parts@)[5] == parts@[5]@);
        }
    }
    if parts.len() == 6 {
        match strip_prefix(parts[5].as_str(), "runtime/") {
            None => {},
            Some(runtime_id) => {
                if same(parts[0].as_str(), "arn") && same(parts[1].as_str(), "aws") && same(
                    parts[2].as_str(),
                    "bedrock-agentcore",
                ) && !parts[3].as_str().is_empty() && names_account(parts[4].as_str())
                    && valid_runtime_id(runtime_id.as_str()) {
                    return Ok(
                        RuntimeArn {
                            region: parts[3].clone(),
                            account_id: parts[4].clone(),
                            runtime_id,
                        },
                    );
                }
            },
        }
    }
    Err(CatalogError::Resolution(cat3("runtime ", value, " was not found")))
}

/// An identifier is taken for an ARN by how it starts.
pub open spec fn looks_like_arn(identifier: Seq<char>) -> bool {
    starts_with(identifier, "arn:"@)
}

/// Reading the ARN of a runtime gives back what it was made of.
pub proof fn law_arn_round_trip(region: Seq<char>, account_id: Seq<char>, runtime_id: Seq<char>)
    requires
        region.len() > 0,
        !region.contains(':'),
        is_account_id(account_id),
        is_runtime_id(runtime_id),
    ensures
        arn_parts(arn_text(region, account_id, runtime_id)) == Some(
            RuntimeArnView { region, account_id, runtime_id },
        ),
{
    reveal_strlit("arn:aws:bedrock-agentcore:");
    reveal_strlit("arn");
    reveal_strlit("aws");
    reveal_strlit("bedrock-agentcore");
    reveal_strlit(":runtime/");
    reveal_strlit("runtime/");
    reveal_strlit(":");
    reveal_with_fuel(split_n, 7);
    let sep = seq![':'];
    let resource = "runtime/"@ + runtime_id;
    let s5 = account_id + sep + resource;
    let s4 = region + sep + s5;
    let s3 = "bedrock-agentcore"@ + sep + s4;
    let s2 = "aws"@ + sep + s3;
    let whole = arn_text(region, account_id, runtime_id);
    assert(whole =~= "arn"@ + sep + s2);
    assert forall|i: int| 0 <= i < region.len() implies region[i] != ':' by {
        assert(region.contains(region[i]));
    }
    lemma_split_once_joined("arn"@, s2, ':');
    lemma_split_once_joined("aws"@, s3, ':');
    lemma_split_once_joined("bedrock-agentcore"@, s4, ':');
    lemma_split_once_joined(region, s5, ':');
    lemma_split_once_joined(account_id, resource, ':');
    let parts = split_n(whole, ':', 6);
    assert(parts =~= seq![
        "arn"@,
        "aws"@,
        "bedrock-agentcore"@,
        region,
        account_id,
        resource,
    ]);
    assert(resource.subrange(0, 8) =~= "runtime/"@);
    assert(resource.skip(8) =~= runtime_id);
}

/// An ARN is made of what it reads as, so two ARNs that read the same are the same.
pub proof fn law_arn_is_made_of_its_parts(value: Seq<char>)
    requires
        arn_parts(value) is Some,
    ensures
        ({
            let parts = arn_parts(value)->Some_0;
            value == arn_text(parts.region, parts.account_id, parts.runtime_id)
        }),
{
    reveal_strlit("arn:aws:bedrock-agentcore:");
    reveal_strlit("arn");
    reveal_strlit("aws");
    reveal_strlit("bedrock-agentcore");
    reveal_strlit(":runtime/");
    reveal_strlit("runtime/");
    reveal_strlit(":");
    reveal_with_fuel(split_n, 7);
    let s1 = value;
    lemma_split_once_parts(s1, ':');
    let p1 = split_once(s1, ':')->Some_0;
    lemma_split_once_parts(p1.1, ':');
    let p2 = split_once(p1.1, ':')->Some_0;
    lemma_split_once_parts(p2.1, ':');
    let p3 = split_once(p2.1, ':')->Some_0;
    lemma_split_once_parts(p3.1, ':');
    let p4 = split_once(p3.1, ':')->Some_0;
    lemma_split_once_parts(p4.1, ':');
    let p5 = split_once(p4.1, ':')->Some_0;
    let parts = split_n(value, ':', 6);
    assert(parts[0] == p1.0);
    assert(parts[1] == p2.0);
    assert(parts[2] == p3.0);
    assert(parts[3] == p4.0);
    assert(parts[4] == p5.0);
    assert(parts[5] == p5.1);
    let id = after_prefix(parts[5], "runtime/"@)->Some_0;
    assert(p5.1 =~= "runtime/"@ + id) by {
        assert(p5.1 =~= p5.1.subrange(0, 8) + p5.1.skip(8));
    }
    assert(value =~= arn_text(p4.0, p5.0, id));
}

} // verus!
