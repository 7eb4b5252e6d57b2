//! Example documents of the manifest service, as it sends them.
use vstd::prelude::*;

verus! {

/// A manifest of release `R004` with two alignment and two variant entries.
pub const EXAMPLE_ELSA_MANIFEST: &'static str = r#"
        {
            "id": "R004",
            "reads": {
                "30F9F3FED8F711ED8C35DBEF59E9F537": {
                    "url": "s3://umccr-10g-data-dev/HG00097/HG00097.bam",
                    "restrictions": [
                        {
                            "chromosome": 1,
                            "start": 1,
                            "end": 10
                        }
                    ]
                },
                "30F9FFD4D8F711ED8C353BBCB8861211": {
                    "url": "s3://umccr-10g-data-dev/HG00096/HG00096.bam",
                    "restrictions": [
                        {
                            "chromosome": 2,
                            "end": 10
                        }
                    ]
                }
            },
            "variants": {
                "30F9F3FED8F711ED8C35DBEF59E9F537": {
                    "url": "s3://umccr-10g-data-dev/HG00097/HG00097.hard-filtered.vcf.gz",
                    "restrictions": [
                        {
                            "chromosome": 3,
                            "start": 10
                        }
                    ],
                    "variantSampleId": ""
                },
                "30F9FFD4D8F711ED8C353BBCB8861211": {
                    "url": "s3://umccr-10g-data-dev/HG00096/HG00096.hard-filtered.vcf.gz",
                    "restrictions": [
                        {
                            "chromosome": 4
                        }
                    ],
                    "variantSampleId": ""
                }
            },
            "cases": [
                {
                    "ids": {
                        "": "SINGLETONCHARLES"
                    },
                    "patients": [
                        {
                            "ids": {
                                "": "CHARLES"
                            },
                            "specimens": [
                                {
                                    "htsgetId": "30F9FFD4D8F711ED8C353BBCB8861211",
                                    "ids": {
                                        "": "HG00096"
                                    }
                                }
                            ]
                        }
                    ]
                },
                {
                    "ids": {
                        "": "SINGLETONMARY"
                    },
                    "patients": [
                        {
                            "ids": {
                                "": "MARY"
                            },
                            "specimens": [
                                {
                                    "htsgetId": "30F9F3FED8F711ED8C35DBEF59E9F537",
                                    "ids": {
                                        "": "HG00097"
                                    }
                                }
                            ]
                        }
                    ]
                }
            ]
        }
        "#;

/// The manifest service's answer for release `R004`.
pub const EXAMPLE_ELSA_RESPONSE: &'static str = r#"
        {
            "location": {
                "bucket": "elsa-data-tmp",
                "key": "htsget-manifests/R004"
            },
            "maxAge": 86400
        }
        "#;

/// The example manifest document.
pub fn example_elsa_manifest() -> (r: String)
    ensures
        r@ == EXAMPLE_ELSA_MANIFEST@,
{
    String::from_str(EXAMPLE_ELSA_MANIFEST)
}

/// The example answer of the manifest service.
pub fn example_elsa_response() -> (r: String)
    ensures
        r@ == EXAMPLE_ELSA_RESPONSE@,
{
    String::from_str(EXAMPLE_ELSA_RESPONSE)
}

} // verus!
