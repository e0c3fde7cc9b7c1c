# pms

A project-management service: users and service-wide roles, customers and the
company, projects with their areas, members and project roles, a tree of tasks
per project, daily progress reports, incident and safety reports.

- `src/` is the verified library (Verus). It holds the rules of the service:
  permission checks, the status rules of projects and tasks, the task tree and
  its queries, report validation, request checks, record identifiers, stored
  file names and the settings file format. Each public function carries a
  contract, and the laws that relate several functions are public proof
  functions.
- `app/` is the HTTP server around it (actix-web and MongoDB): routes, storage,
  login tokens, file uploads, and the progress curves, which are computed with
  floating-point weights.
- `tests/` exercises the library on concrete values.
