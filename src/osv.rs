//! Results of a vulnerability scan of a checked-out source tree.

use vstd::prelude::*;

verus! {

#[derive(Debug)]
pub struct Output {
    pub results: Option<Vec<ScanResult>>,
}

#[derive(Debug)]
pub struct ScanResult {
    pub source: Source,
    pub packages: Vec<Packages>,
}

#[derive(Debug, Clone)]
pub struct Packages {
    pub package: Package,
    pub vulnerabilities: Vec<Vulnerability>,
    pub groups: Option<Vec<Group>>,
}

/// The scanned file that a result was found in.
#[derive(Debug, Clone)]
pub struct Source {
    pub path: String,
    pub kind: String,
}

#[derive(Debug, Clone)]
pub struct Package {
    pub name: String,
    pub version: Option<String>,
    pub ecosystem: String,
}

#[derive(Debug, Clone)]
pub struct Vulnerability {
    pub id: String,
    pub aliases: Option<Vec<String>>,
    pub summary: Option<String>,
    pub details: Option<String>,
}

/// Advisory ids that describe one vulnerability.
#[derive(Debug, Clone)]
pub struct Group {
    pub ids: Vec<String>,
}

} // verus!
